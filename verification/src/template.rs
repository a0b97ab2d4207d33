//! Rendering the content of a prompt as a template, with values given for
//! its variables. The rendering itself is the work of the `tera` crate.
//!
//! The library renders plain templates: text in which each `{{ name }}`
//! stands for the value of a variable. Nothing else of the renderer's
//! language is used here, whose expressions can make the renderer stop the
//! program.

use crate::error::AppError;
use crate::text::chars_of;
use vstd::prelude::*;
use vstd::string::*;

verus! {

/// The context of a rendering, as `tera` holds it.
#[verifier::external_type_specification]
#[verifier::external_body]
pub struct ExContext(tera::Context);

/// The error of a rendering, as `tera` reports it.
#[verifier::external_type_specification]
#[verifier::external_body]
pub struct ExRenderError(tera::Error);

/// The values that a context holds for the names of variables.
pub uninterp spec fn bindings(context: tera::Context) -> Map<Seq<char>, Seq<char>>;

/// Whether the renderer skips the character inside a placeholder.
pub open spec fn is_blank(c: char) -> bool {
    c == ' ' || c == '\t' || c == '\r' || c == '\n'
}

/// Whether a name can begin with the character.
pub open spec fn starts_name(c: char) -> bool {
    ('a' <= c <= 'z') || ('A' <= c <= 'Z') || c == '_'
}

/// Whether a name can go on with the character.
pub open spec fn continues_name(c: char) -> bool {
    starts_name(c) || ('0' <= c <= '9')
}

/// The first position from `from` on that holds no blank.
pub open spec fn after_blanks(text: Seq<char>, from: int) -> int
    decreases text.len() - from,
{
    if 0 <= from < text.len() && is_blank(text[from]) {
        after_blanks(text, from + 1)
    } else {
        from
    }
}

/// The first position from `from` on that holds no character of a name.
pub open spec fn after_name(text: Seq<char>, from: int) -> int
    decreases text.len() - from,
{
    if 0 <= from < text.len() && continues_name(text[from]) {
        after_name(text, from + 1)
    } else {
        from
    }
}

/// Whether the renderer takes the name for something else than a variable:
/// a name that begins with a truth value, the word `not`, and the name
/// under which the renderer shows its whole context.
pub open spec fn reserved(name: Seq<char>) -> bool {
    ||| "true"@.is_prefix_of(name)
    ||| "false"@.is_prefix_of(name)
    ||| "True"@.is_prefix_of(name)
    ||| "False"@.is_prefix_of(name)
    ||| name == "not"@
    ||| name == "__tera_context"@
}

/// A placeholder: the name of its variable and the position behind it.
pub struct Placeholder {
    pub name: Seq<char>,
    pub end: int,
}

/// Whether a block of the renderer's language opens at the position: a
/// brace followed by a brace, a percent sign or a hash.
pub open spec fn opens_block(text: Seq<char>, at: int) -> bool {
    &&& 0 <= at
    &&& at + 1 < text.len()
    &&& text[at] == '{'
    &&& (text[at + 1] == '{' || text[at + 1] == '%' || text[at + 1] == '#')
}

/// The placeholder that opens at the position, if one does: two braces,
/// blanks, a name that is not reserved, blanks, two closing braces.
pub open spec fn placeholder_at(text: Seq<char>, at: int) -> Option<Placeholder> {
    let name_from = after_blanks(text, at + 2);
    let name_to = after_name(text, name_from);
    let close = after_blanks(text, name_to);
    if opens_block(text, at) && text[at + 1] == '{' && name_from < text.len() && starts_name(
        text[name_from],
    ) && close + 1 < text.len() && text[close] == '}' && text[close + 1] == '}' && !reserved(
        text.subrange(name_from, name_to),
    ) {
        Some(Placeholder { name: text.subrange(name_from, name_to), end: close + 2 })
    } else {
        None
    }
}

/// Whether the text from the position on is plain: every block that opens
/// in it is a placeholder.
pub open spec fn plain_from(text: Seq<char>, at: int) -> bool
    decreases text.len() - at,
{
    if at < 0 || at >= text.len() {
        true
    } else if opens_block(text, at) {
        match placeholder_at(text, at) {
            Some(placeholder) => placeholder.end > at && plain_from(text, placeholder.end),
            None => false,
        }
    } else {
        plain_from(text, at + 1)
    }
}

/// Whether a template is plain: text and placeholders, nothing else.
pub open spec fn is_plain(template: Seq<char>) -> bool {
    plain_from(template, 0)
}

/// The text from the position on with the value of each variable in the
/// place of its placeholder; nothing where a variable has no value.
pub open spec fn rendered_from(
    text: Seq<char>,
    at: int,
    values: Map<Seq<char>, Seq<char>>,
) -> Option<Seq<char>>
    decreases text.len() - at,
{
    if at < 0 || at >= text.len() {
        Some(Seq::empty())
    } else if opens_block(text, at) {
        match placeholder_at(text, at) {
            Some(placeholder) => if placeholder.end > at && values.contains_key(placeholder.name) {
                match rendered_from(text, placeholder.end, values) {
                    Some(rest) => Some(values[placeholder.name] + rest),
                    None => None,
                }
            } else {
                None
            },
            None => None,
        }
    } else {
        match rendered_from(text, at + 1, values) {
            Some(rest) => Some(seq![text[at]] + rest),
            None => None,
        }
    }
}

/// What a plain template renders to with the given values.
pub open spec fn rendered(template: Seq<char>, values: Map<Seq<char>, Seq<char>>) -> Option<
    Seq<char>,
> {
    rendered_from(template, 0, values)
}

/// No value for any name.
pub open spec fn no_bindings() -> Map<Seq<char>, Seq<char>> {
    Map::empty()
}

/// Calls `tera::Context::new`. Claimed: the new context holds no value.
#[verifier::external_body]
fn empty_context() -> (made: tera::Context)
    ensures
        bindings(made) == no_bindings(),
{
    tera::Context::new()
}

/// Calls `tera::Context::insert` with a string as the value. Claimed: the
/// context then holds `value` for `name`, in place of what it held for that
/// name, and what it held for other names.
#[verifier::external_body]
fn bind(context: &mut tera::Context, name: &str, value: &str)
    ensures
        bindings(*final(context)) == bindings(*old(context)).insert(name@, value@),
{
    context.insert(name, value)
}

/// Calls `tera::Tera::one_off`. Only plain templates are admitted: the
/// renderer reads such a template as text and blocks that each name one
/// variable, so that it evaluates no expression, on which it could stop the
/// program. Claimed, for a call without escaping: the text is the template
/// with the value of each variable in the place of its placeholder, and the
/// call fails exactly when a variable has no value. Nothing is claimed of a
/// call with escaping.
#[verifier::external_body]
fn render_one_off(template: &str, context: &tera::Context, autoescape: bool) -> (outcome: Result<
    String,
    tera::Error,
>)
    requires
        is_plain(template@),
    ensures
        !autoescape ==> (outcome is Ok <==> rendered(template@, bindings(*context)) is Some),
        !autoescape ==> (outcome matches Ok(text) ==> rendered(template@, bindings(*context))
            == Some(text@)),
{
    tera::Tera::one_off(template, context, autoescape)
}

/// Calls `to_string` on a `tera::Error`. Nothing is claimed of the text.
#[verifier::external_body]
fn render_error_text(error: &tera::Error) -> (text: String) {
    error.to_string()
}

/// The values that a list of assignments gives: a later assignment to a name
/// replaces an earlier one.
pub open spec fn assigned(variables: Seq<(Seq<char>, Seq<char>)>) -> Map<Seq<char>, Seq<char>>
    decreases variables.len(),
{
    if variables.len() == 0 {
        Map::empty()
    } else {
        assigned(variables.drop_last()).insert(variables.last().0, variables.last().1)
    }
}

/// Makes the context that holds the given assignments.
pub fn context_of(variables: &[(String, String)]) -> (context: tera::Context)
    ensures
        bindings(context) == assigned(variables.deep_view()),
{
    let ghost all = variables.deep_view();
    let mut context = empty_context();
    let mut i: usize = 0;
    assert(all.subrange(0, 0) =~= Seq::empty());
    while i < variables.len()
        invariant
            i <= variables.len(),
            all == variables.deep_view(),
            bindings(context) == assigned(all.subrange(0, i as int)),
        decreases variables.len() - i,
    {
        proof {
            let next = all.subrange(0, i as int + 1);
            assert(next.drop_last() =~= all.subrange(0, i as int));
            assert(next.last() == all[i as int]);
        }
        bind(&mut context, variables[i].0.as_str(), variables[i].1.as_str());
        i += 1;
    }
    assert(all.subrange(0, i as int) =~= all);
    context
}

/// The error of the application for a rendering that failed.
pub fn rendering_failure(error: &tera::Error) -> (failure: AppError)
    ensures
        failure is Anyhow,
{
    AppError::Anyhow(render_error_text(error))
}

/// What the application makes of the outcome of a rendering: the rendered
/// text, or an error of the catch-all kind.
pub fn rendering(outcome: Result<String, tera::Error>) -> (result: Result<String, AppError>)
    ensures
        match outcome {
            Ok(text) => result == Ok::<String, AppError>(text),
            Err(_) => result matches Err(failure) && failure is Anyhow,
        },
{
    match outcome {
        Ok(text) => Ok(text),
        Err(error) => Err(rendering_failure(&error)),
    }
}

/// Skips the blanks from `from` on.
fn skip_blanks(text: &Vec<char>, from: usize) -> (to: usize)
    requires
        from <= text.len(),
    ensures
        to == after_blanks(text@, from as int),
        from <= to <= text.len(),
{
    let mut to = from;
    while to < text.len() && (text[to] == ' ' || text[to] == '\t' || text[to] == '\r' || text[to]
        == '\n')
        invariant
            from <= to <= text.len(),
            after_blanks(text@, from as int) == after_blanks(text@, to as int),
        decreases text.len() - to,
    {
        to += 1;
    }
    to
}

/// Decides whether a name can go on with the character.
fn goes_on(c: char) -> (yes: bool)
    ensures
        yes == continues_name(c),
{
    ('a' <= c && c <= 'z') || ('A' <= c && c <= 'Z') || c == '_' || ('0' <= c && c <= '9')
}

/// Skips the characters of a name from `from` on.
fn skip_name(text: &Vec<char>, from: usize) -> (to: usize)
    requires
        from <= text.len(),
    ensures
        to == after_name(text@, from as int),
        from <= to <= text.len(),
{
    let mut to = from;
    while to < text.len() && goes_on(text[to])
        invariant
            from <= to <= text.len(),
            after_name(text@, from as int) == after_name(text@, to as int),
        decreases text.len() - to,
    {
        to += 1;
    }
    to
}

/// Decides whether the part of the text begins with the word.
fn begins_with(text: &Vec<char>, from: usize, to: usize, word: &str) -> (yes: bool)
    requires
        from <= to <= text.len(),
    ensures
        yes == word@.is_prefix_of(text@.subrange(from as int, to as int)),
{
    let letters = chars_of(word);
    if letters.len() > to - from {
        return false;
    }
    let ghost part = text@.subrange(from as int, to as int);
    let mut i: usize = 0;
    while i < letters.len()
        invariant
            i <= letters.len(),
            letters@ == word@,
            letters.len() <= to - from,
            from <= to <= text.len(),
            part == text@.subrange(from as int, to as int),
            forall|j: int| 0 <= j < i ==> part[j] == letters@[j],
        decreases letters.len() - i,
    {
        if text[from + i] != letters[i] {
            assert(part[i as int] != word@[i as int]);
            assert(part.subrange(0, word@.len() as int)[i as int] == part[i as int]);
            return false;
        }
        i += 1;
    }
    assert(word@ =~= part.subrange(0, word@.len() as int));
    true
}

/// Decides whether the part of the text is a reserved name.
fn is_reserved(text: &Vec<char>, from: usize, to: usize) -> (yes: bool)
    requires
        from <= to <= text.len(),
    ensures
        yes == reserved(text@.subrange(from as int, to as int)),
{
    let ghost name = text@.subrange(from as int, to as int);
    proof {
        reveal_strlit("not");
        reveal_strlit("__tera_context");
        if "not"@.is_prefix_of(name) && name.len() == 3 {
            assert(name =~= "not"@);
        }
        if "__tera_context"@.is_prefix_of(name) && name.len() == 14 {
            assert(name =~= "__tera_context"@);
        }
        if name == "not"@ {
            assert("not"@.is_prefix_of(name));
        }
        if name == "__tera_context"@ {
            assert("__tera_context"@.is_prefix_of(name));
        }
    }
    begins_with(text, from, to, "true") || begins_with(text, from, to, "false") || begins_with(
        text,
        from,
        to,
        "True",
    ) || begins_with(text, from, to, "False") || (to - from == 3 && begins_with(
        text,
        from,
        to,
        "not",
    )) || (to - from == 14 && begins_with(text, from, to, "__tera_context"))
}

/// Finds the end of the placeholder that opens at the position.
fn placeholder_end(text: &Vec<char>, at: usize) -> (end: Option<usize>)
    requires
        at + 1 < text.len(),
        opens_block(text@, at as int),
    ensures
        match end {
            Some(end) => placeholder_at(text@, at as int) matches Some(placeholder)
                && placeholder.end == end && at < end <= text.len(),
            None => placeholder_at(text@, at as int) is None,
        },
{
    if text[at + 1] != '{' {
        return None;
    }
    let name_from = skip_blanks(text, at + 2);
    if name_from >= text.len() || !goes_on(text[name_from]) || ('0' <= text[name_from]
        && text[name_from] <= '9') {
        return None;
    }
    let name_to = skip_name(text, name_from);
    let close = skip_blanks(text, name_to);
    if close >= text.len() || close + 1 >= text.len() || text[close] != '}' || text[close + 1]
        != '}' {
        return None;
    }
    if is_reserved(text, name_from, name_to) {
        return None;
    }
    Some(close + 2)
}

/// Decides whether a template is plain.
pub fn is_plain_template(content: &str) -> (plain: bool)
    ensures
        plain == is_plain(content@),
{
    let text = chars_of(content);
    let mut at: usize = 0;
    while at < text.len()
        invariant
            at <= text.len(),
            text@ == content@,
            is_plain(content@) == plain_from(text@, at as int),
        decreases text.len() - at,
    {
        if text[at] == '{' && at + 1 < text.len() && (text[at + 1] == '{' || text[at + 1] == '%'
            || text[at + 1] == '#') {
            match placeholder_end(&text, at) {
                Some(end) => {
                    at = end;
                },
                None => {
                    return false;
                },
            }
        } else {
            at += 1;
        }
    }
    true
}

/// Renders a plain template with the given assignments of its variables:
/// each placeholder gives way to the value of its variable. A variable
/// without a value is an error of the catch-all kind.
pub fn render_prompt(content: &str, variables: &[(String, String)]) -> (result: Result<
    String,
    AppError,
>)
    requires
        is_plain(content@),
    ensures
        match rendered(content@, assigned(variables.deep_view())) {
            Some(text) => result matches Ok(out) && out@ == text,
            None => result matches Err(failure) && failure is Anyhow,
        },
{
    let context = context_of(variables);
    rendering(render_one_off(content, &context, false))
}

} // verus!
