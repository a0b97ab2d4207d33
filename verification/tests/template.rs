use prompts_cli::template::{context_of, is_plain_template, render_prompt};
use prompts_cli::AppError;

fn pair(name: &str, value: &str) -> (String, String) {
    (name.to_string(), value.to_string())
}

fn render(template: &str, variables: &[(String, String)]) -> Result<String, AppError> {
    assert!(is_plain_template(template), "not plain: {}", template);
    render_prompt(template, variables)
}

#[test]
fn a_variable_is_replaced_by_its_value() {
    let rendered = render("Hello, {{name}}!", &[pair("name", "World")]).unwrap();
    assert_eq!(rendered, "Hello, World!");
}

#[test]
fn several_variables() {
    let rendered = render(
        "{{ greeting }}, {{name}}! {{ greeting }} again.",
        &[pair("name", "World"), pair("greeting", "Hi")],
    )
    .unwrap();
    assert_eq!(rendered, "Hi, World! Hi again.");
}

#[test]
fn a_text_without_variables_stays() {
    assert_eq!(render("plain text", &[]).unwrap(), "plain text");
    assert_eq!(render("plain text", &[pair("unused", "x")]).unwrap(), "plain text");
    assert_eq!(render("", &[]).unwrap(), "");
    assert_eq!(render("  \n\tspaced \n", &[]).unwrap(), "  \n\tspaced \n");
    assert_eq!(render("é 中 \u{10ffff}", &[]).unwrap(), "é 中 \u{10ffff}");
}

#[test]
fn braces_that_open_no_block_are_text() {
    for text in ["{", "a { b", "{ {", "}}", "%}", "#}", "{\"a\": 1}", "{}", "}{", "a{", "{ {name} }", "{-{"] {
        assert_eq!(render(text, &[pair("name", "v")]).unwrap(), text);
    }
}

#[test]
fn blanks_around_a_name_do_not_count() {
    let values = [pair("name", "v")];
    for template in ["{{name}}", "{{ name }}", "{{\tname\n}}", "{{ \r\n name \t }}", "{{name }}", "{{ name}}"] {
        assert_eq!(render(template, &values).unwrap(), "v");
    }
    assert_eq!(render(" {{ name }} ", &values).unwrap(), " v ");
    assert_eq!(render("{{name}}{{name}}", &values).unwrap(), "vv");
    assert_eq!(render("{ {{name}}}", &values).unwrap(), "{ v}");
}

#[test]
fn names_of_letters_digits_and_underscores() {
    for name in [
        "a", "A", "_", "_x", "a1", "a_b_2", "Name", "x9y", "nothing", "notx", "tru", "fals", "truth",
        "in", "is", "and", "or", "loop", "selfish", "__tera_contexts", "__tera", "if", "for", "set",
        "raw", "block", "include", "extends", "super", "t", "f", "nott", "no", "Tru", "Fals", "inn",
        "iss", "andd", "orr", "not_", "not1",
    ] {
        let template = format!("<{{{{ {} }}}}>", name);
        assert_eq!(render(&template, &[pair(name, "value")]).unwrap(), "<value>", "{}", name);
        let tight = format!("<{{{{{}}}}}>", name);
        assert_eq!(render(&tight, &[pair(name, "value")]).unwrap(), "<value>", "{}", name);
    }
}

#[test]
fn values_are_put_in_as_they_are() {
    assert_eq!(render("{{ v }}", &[pair("v", "<b>&</b>")]).unwrap(), "<b>&</b>");
    assert_eq!(render("{{ v }}", &[pair("v", "{{ w }}"), pair("w", "x")]).unwrap(), "{{ w }}");
    assert_eq!(render("{{ v }}", &[pair("v", "")]).unwrap(), "");
    assert_eq!(render("{{ v }}", &[pair("v", "é\n\"")]).unwrap(), "é\n\"");
}

#[test]
fn a_later_assignment_replaces_an_earlier_one() {
    let rendered = render("{{ v }}", &[pair("v", "first"), pair("v", "second")]).unwrap();
    assert_eq!(rendered, "second");
}

#[test]
fn a_variable_without_a_value_is_an_error() {
    match render("Hello, {{name}}!", &[]) {
        Err(AppError::Anyhow(detail)) => assert!(!detail.is_empty()),
        other => panic!("unexpected outcome {:?}", other),
    }
    match render("Hello, {{name}}!", &[pair("other", "x"), pair("Name", "x"), pair("name ", "x")]) {
        Err(AppError::Anyhow(_)) => {}
        other => panic!("unexpected outcome {:?}", other),
    }
    match render("{{ a }}{{ b }}", &[pair("a", "x")]) {
        Err(AppError::Anyhow(_)) => {}
        other => panic!("unexpected outcome {:?}", other),
    }
}

#[test]
fn templates_that_are_not_plain() {
    for template in [
        "{{",
        "{{}}",
        "{{ }}",
        "{{ name",
        "{{ name }",
        "{{ name } }",
        "Hello, {{name",
        "{{ 1a }}",
        "{{ 1 }}",
        "{{ a b }}",
        "{{ a.b }}",
        "{{ a[0] }}",
        "{{ a | upper }}",
        "{{ a + b }}",
        "{{ a ~ b }}",
        "{{ \"text\" }}",
        "{{ not a }}",
        "{{ é }}",
        "{{ a-b }}",
        "{{- a }}",
        "{{ a -}}",
        "{{-a-}}",
        "{% if a %}x{% endif %}",
        "{%",
        "{% raw %}{{ a }}{% endraw %}",
        "{# comment #}",
        "{#",
        "text {# c #} text",
        "{{ true }}",
        "{{ false }}",
        "{{ True }}",
        "{{ False }}",
        "{{ trueish }}",
        "{{ falsehood }}",
        "{{ True_x }}",
        "{{ False1 }}",
        "{{ not }}",
        "{{not}}",
        "{{ __tera_context }}",
        "{{ get_env(name=\"HOME\") }}",
        "{{ -9223372036854775808 % -1 }}",
        "{{ 1.0 }}",
        "ok {{ a }} then {{ b | safe }}",
        "{{ a }}{%",
        "{{{name}}}",
        "{{{{name}}}}",
    ] {
        assert!(!is_plain_template(template), "{}", template);
    }
}

#[test]
fn templates_that_are_plain() {
    for template in ["", "text", "{{a}}", "{{ a }} and {{ b_2 }}", "{ {{ a }} }", "a {{ a }}{", "}} {{ a }} {{", "{{ a }}{{"] {
        let expected = !template.ends_with("{{");
        assert_eq!(is_plain_template(template), expected, "{}", template);
    }
}

#[test]
fn the_context_holds_the_assignments() {
    let context = context_of(&[pair("a", "1"), pair("b", "2"), pair("a", "3")]);
    assert_eq!(context.get("a").and_then(|v| v.as_str()), Some("3"));
    assert_eq!(context.get("b").and_then(|v| v.as_str()), Some("2"));
    assert!(context.get("c").is_none());
    assert!(context_of(&[]).get("a").is_none());
}

fn blank(c: char) -> bool {
    c == ' ' || c == '\t' || c == '\r' || c == '\n'
}

fn in_name(c: char) -> bool {
    c.is_ascii_alphanumeric() || c == '_'
}

/// What is expected of a template: nothing where it is not plain, else the
/// text, or the name of the first variable without a value.
fn expected(template: &str, values: &[(String, String)]) -> Option<Result<String, String>> {
    let text: Vec<char> = template.chars().collect();
    let mut out = String::new();
    let mut missing: Option<String> = None;
    let mut at = 0;
    while at < text.len() {
        let opens = text[at] == '{' && at + 1 < text.len() && "{%#".contains(text[at + 1]);
        if !opens {
            out.push(text[at]);
            at += 1;
            continue;
        }
        if text[at + 1] != '{' {
            return None;
        }
        let mut i = at + 2;
        while i < text.len() && blank(text[i]) {
            i += 1;
        }
        let from = i;
        if i >= text.len() || !in_name(text[i]) || text[i].is_ascii_digit() {
            return None;
        }
        while i < text.len() && in_name(text[i]) {
            i += 1;
        }
        let name: String = text[from..i].iter().collect();
        while i < text.len() && blank(text[i]) {
            i += 1;
        }
        if i + 1 >= text.len() || text[i] != '}' || text[i + 1] != '}' {
            return None;
        }
        let reserved = ["true", "false", "True", "False"].iter().any(|w| name.starts_with(w))
            || name == "not"
            || name == "__tera_context";
        if reserved {
            return None;
        }
        match values.iter().rev().find(|(n, _)| *n == name) {
            Some((_, value)) => out.push_str(value),
            None => {
                if missing.is_none() {
                    missing = Some(name);
                }
            }
        }
        at = i + 2;
    }
    Some(match missing {
        Some(name) => Err(name),
        None => Ok(out),
    })
}

#[test]
fn every_short_template_renders_as_expected() {
    let pieces = [
        "{{", "}}", "{", "}", " ", "a", "not", "true", "x1", "%", "#", "-", "\n", "é", "b", "_",
    ];
    let values = [pair("a", "<A>"), pair("x1", "{{ a }}"), pair("not", "N"), pair("_", "")];
    let mut plain = 0;
    let mut with_error = 0;
    let mut indices = vec![0usize];
    loop {
        let template: String = indices.iter().map(|&i| pieces[i]).collect();
        let wanted = expected(&template, &values);
        assert_eq!(is_plain_template(&template), wanted.is_some(), "{:?}", template);
        if let Some(wanted) = wanted {
            plain += 1;
            match (render_prompt(&template, &values), wanted) {
                (Ok(text), Ok(wanted)) => assert_eq!(text, wanted, "{:?}", template),
                (Err(AppError::Anyhow(detail)), Err(_)) => {
                    with_error += 1;
                    assert!(!detail.is_empty(), "{:?}", template);
                }
                (other, wanted) => panic!("{:?}: {:?} for {:?}", template, other, wanted),
            }
        }
        let mut k = 0;
        while k < indices.len() && indices[k] + 1 == pieces.len() {
            indices[k] = 0;
            k += 1;
        }
        if k == indices.len() {
            if indices.len() == 4 {
                break;
            }
            indices.push(0);
        } else {
            indices[k] += 1;
        }
    }
    assert!(plain > 10_000);
    assert!(with_error > 10);
}
