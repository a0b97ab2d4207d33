//! The state of the terminal front-end and what each key does to it. The
//! drawing and the reading of keys are not here: the state holds the texts
//! of the prompts, the selection, the text under edit and the cursor in it.
//!
//! The cursor is a position in the bytes of the text and moves byte by
//! byte. A character can be put in only where a character ends, and the
//! byte before the cursor can be taken out only if it is a character of its
//! own.

use crate::generator::{mock_text, MockTextGenerator, TextGenerator};
use vstd::prelude::*;
use vstd::string::*;
use vstd::utf8::*;

verus! {

/// What the keys are taken for.
#[derive(Clone, Copy, Debug, PartialEq, Eq, Structural)]
pub enum InputMode {
    /// Keys move the selection and give commands.
    Normal,
    /// Keys edit the text of the selected prompt.
    Editing,
    /// The generated text is shown.
    Generating,
}

/// A key that was pressed.
#[derive(Clone, Copy, Debug, PartialEq, Eq, Structural)]
pub enum Key {
    Char(char),
    Up,
    Down,
    Left,
    Right,
    Enter,
    Esc,
    Backspace,
    Other,
}

/// The state of the front-end.
pub struct App {
    texts: Vec<String>,
    selected: Option<usize>,
    input_mode: InputMode,
    selected_prompt_text: String,
    cursor_position: usize,
    generated_text: String,
}

/// The state as plain mathematical values. The cursor counts bytes.
pub struct AppView {
    pub texts: Seq<Seq<char>>,
    pub selected: Option<int>,
    pub input_mode: InputMode,
    pub selected_prompt_text: Seq<char>,
    pub cursor_position: int,
    pub generated_text: Seq<char>,
}

impl AppView {
    /// The selection, if there is one, is a position in the list.
    pub open spec fn selection_valid(self) -> bool {
        self.selected matches Some(i) ==> 0 <= i < self.texts.len()
    }

    /// The bytes of the text under edit.
    pub open spec fn bytes(self) -> Seq<u8> {
        encode_utf8(self.selected_prompt_text)
    }

    /// The selection is a position in the list, and the cursor stands in the
    /// text under edit or at its end.
    pub open spec fn wf(self) -> bool {
        &&& self.selection_valid()
        &&& 0 <= self.cursor_position <= self.bytes().len()
    }

    /// The nearest position to `position` that lies in the text under edit
    /// or at its end.
    pub open spec fn clamped(self, position: int) -> int {
        if position <= self.bytes().len() {
            position
        } else {
            self.bytes().len() as int
        }
    }

    /// The state with the text of the selected prompt taken up for editing,
    /// the cursor at its end; without a selection the text is empty.
    pub open spec fn reloaded(self) -> AppView {
        match self.selected {
            Some(i) => AppView {
                selected_prompt_text: self.texts[i],
                cursor_position: encode_utf8(self.texts[i]).len() as int,
                ..self
            },
            None => AppView { selected_prompt_text: Seq::empty(), cursor_position: 0, ..self },
        }
    }

    /// The state after the selection moved down: from the last prompt to the
    /// first, and to the first where nothing was selected.
    pub open spec fn moved_down(self) -> AppView {
        let next = match self.selected {
            Some(i) => if i >= self.texts.len() - 1 {
                0
            } else {
                i + 1
            },
            None => 0,
        };
        (AppView { selected: Some(next), ..self }).reloaded()
    }

    /// The state after the selection moved up: from the first prompt to the
    /// last, and to the first where nothing was selected.
    pub open spec fn moved_up(self) -> AppView {
        let previous = match self.selected {
            Some(i) => if i == 0 {
                self.texts.len() - 1
            } else {
                i - 1
            },
            None => 0,
        };
        (AppView { selected: Some(previous), ..self }).reloaded()
    }

    /// The state after the text under edit was put in the place of the text
    /// of the selected prompt.
    pub open spec fn committed(self) -> AppView {
        AppView {
            texts: match self.selected {
                Some(i) => self.texts.update(i, self.selected_prompt_text),
                None => self.texts,
            },
            input_mode: InputMode::Normal,
            ..self
        }
    }

    /// The state after the edit was given up.
    pub open spec fn discarded(self) -> AppView {
        AppView { input_mode: InputMode::Normal, ..self.reloaded() }
    }

    /// The state after the cursor moved one byte to the left, if it was not
    /// at the start. A cursor behind the text comes to its end.
    pub open spec fn cursor_left(self) -> AppView {
        AppView {
            cursor_position: self.clamped(
                if self.cursor_position > 0 {
                    self.cursor_position - 1
                } else {
                    0
                },
            ),
            ..self
        }
    }

    /// The state after the cursor moved one byte to the right, if it was
    /// not at the end.
    pub open spec fn cursor_right(self) -> AppView {
        AppView { cursor_position: self.clamped(self.cursor_position + 1), ..self }
    }

    /// Whether a character can be typed: the cursor stands where a
    /// character ends.
    pub open spec fn can_type(self) -> bool {
        is_char_boundary(self.bytes(), self.cursor_position)
    }

    /// Whether the byte before the cursor can be deleted: it is a character
    /// of its own. At the start of the text there is nothing to delete.
    pub open spec fn can_erase(self) -> bool {
        self.cursor_position > 0 ==> is_char_boundary(self.bytes(), self.cursor_position - 1)
            && is_char_boundary(self.bytes(), self.cursor_position)
    }

    /// The characters that the bytes before the position hold.
    pub open spec fn text_before(self, position: int) -> Seq<char> {
        decode_utf8(self.bytes().subrange(0, position))
    }

    /// The characters that the bytes from the position on hold.
    pub open spec fn text_from(self, position: int) -> Seq<char> {
        decode_utf8(self.bytes().subrange(position, self.bytes().len() as int))
    }

    /// The state after a character was typed at the cursor: the cursor then
    /// stands one byte further on.
    pub open spec fn typed(self, c: char) -> AppView {
        (AppView {
            selected_prompt_text: self.text_before(self.cursor_position).push(c) + self.text_from(
                self.cursor_position,
            ),
            ..self
        }).cursor_right()
    }

    /// The state after the byte before the cursor was deleted, if there was
    /// one.
    pub open spec fn erased(self) -> AppView {
        if self.cursor_position > 0 {
            (AppView {
                selected_prompt_text: self.text_before(self.cursor_position - 1) + self.text_from(
                    self.cursor_position,
                ),
                ..self
            }).cursor_left()
        } else {
            self
        }
    }

    /// The state after text was generated from the selected prompt.
    pub open spec fn generated(self) -> AppView {
        AppView {
            generated_text: match self.selected {
                Some(i) => mock_text(self.texts[i]),
                None => "No prompt selected for generation."@,
            },
            input_mode: InputMode::Generating,
            ..self
        }
    }

    /// Whether the key ends the program.
    pub open spec fn quits(self, key: Key) -> bool {
        self.input_mode == InputMode::Normal && key == Key::Char('q')
    }

    /// Whether the key moves the selection.
    pub open spec fn moves_selection(self, key: Key) -> bool {
        self.input_mode == InputMode::Normal && (key == Key::Down || key == Key::Up)
    }

    /// Whether the key can be handled: the selection moves only in a list
    /// that is not empty, a character is typed only where one can be typed,
    /// and a byte is deleted only where one can be deleted.
    pub open spec fn takes_key(self, key: Key) -> bool {
        &&& self.moves_selection(key) ==> self.texts.len() > 0
        &&& self.input_mode == InputMode::Editing && key is Char ==> self.can_type()
        &&& self.input_mode == InputMode::Editing && key == Key::Backspace ==> self.can_erase()
    }

    /// The state after a key was pressed.
    pub open spec fn after_key(self, key: Key) -> AppView {
        match self.input_mode {
            InputMode::Normal => match key {
                Key::Down => self.moved_down(),
                Key::Up => self.moved_up(),
                Key::Char(c) => if c == 'e' {
                    AppView { input_mode: InputMode::Editing, ..self }
                } else if c == 'g' {
                    self.generated()
                } else {
                    self
                },
                _ => self,
            },
            InputMode::Editing => match key {
                Key::Enter => self.committed(),
                Key::Esc => self.discarded(),
                Key::Left => self.cursor_left(),
                Key::Right => self.cursor_right(),
                Key::Backspace => self.erased(),
                Key::Char(c) => self.typed(c),
                _ => self,
            },
            InputMode::Generating => match key {
                Key::Esc => AppView { input_mode: InputMode::Normal, ..self },
                _ => self,
            },
        }
    }
}

impl View for App {
    type V = AppView;

    closed spec fn view(&self) -> AppView {
        AppView {
            texts: self.texts.deep_view(),
            selected: match self.selected {
                Some(i) => Some(i as int),
                None => None,
            },
            input_mode: self.input_mode,
            selected_prompt_text: self.selected_prompt_text@,
            cursor_position: self.cursor_position as int,
            generated_text: self.generated_text@,
        }
    }
}

/// The number of bytes of a text.
fn byte_len(text: &str) -> (len: usize)
    ensures
        len == encode_utf8(text@).len(),
{
    text.as_bytes().len()
}

/// Calls `String::push`. Claimed: the character is appended to the string.
#[verifier::external_body]
fn push_char(text: &mut String, c: char)
    ensures
        final(text)@ == old(text)@.push(c),
{
    text.push(c)
}

impl App {
    /// The state at the start: the first prompt is selected if there is
    /// one, and its text is taken up.
    pub fn new(texts: Vec<String>) -> (app: App)
        ensures
            app@.wf(),
            app@ == (AppView {
                texts: texts.deep_view(),
                selected: if texts.len() > 0 {
                    Some(0int)
                } else {
                    None
                },
                input_mode: InputMode::Normal,
                selected_prompt_text: Seq::empty(),
                cursor_position: 0,
                generated_text: Seq::empty(),
            }).reloaded(),
    {
        let selected = if texts.len() > 0 {
            Some(0)
        } else {
            None
        };
        let mut app = App {
            texts,
            selected,
            input_mode: InputMode::Normal,
            selected_prompt_text: String::new(),
            cursor_position: 0,
            generated_text: String::new(),
        };
        app.update_selected_prompt_text();
        app
    }

    /// The texts of the prompts.
    pub fn texts(&self) -> (texts: &Vec<String>)
        ensures
            texts.deep_view() == self@.texts,
    {
        &self.texts
    }

    /// The position of the selected prompt.
    pub fn selected(&self) -> (selected: Option<usize>)
        ensures
            match selected {
                Some(i) => self@.selected == Some(i as int),
                None => self@.selected is None,
            },
    {
        self.selected
    }

    /// What the keys are taken for.
    pub fn input_mode(&self) -> (mode: InputMode)
        ensures
            mode == self@.input_mode,
    {
        self.input_mode
    }

    /// The text under edit.
    pub fn selected_prompt_text(&self) -> (text: &String)
        ensures
            text@ == self@.selected_prompt_text,
    {
        &self.selected_prompt_text
    }

    /// The position of the cursor in the text under edit, in bytes.
    pub fn cursor_position(&self) -> (position: usize)
        ensures
            position == self@.cursor_position,
    {
        self.cursor_position
    }

    /// The text that was generated last.
    pub fn generated_text(&self) -> (text: &String)
        ensures
            text@ == self@.generated_text,
    {
        &self.generated_text
    }

    /// Moves the selection down and takes up the text of the prompt.
    pub fn next(&mut self)
        requires
            old(self)@.wf(),
            old(self)@.texts.len() > 0,
        ensures
            final(self)@ == old(self)@.moved_down(),
            final(self)@.wf(),
    {
        let i = match self.selected {
            Some(i) => {
                if i >= self.texts.len() - 1 {
                    0
                } else {
                    i + 1
                }
            },
            None => 0,
        };
        self.selected = Some(i);
        self.update_selected_prompt_text();
    }

    /// Moves the selection up and takes up the text of the prompt.
    pub fn previous(&mut self)
        requires
            old(self)@.wf(),
            old(self)@.texts.len() > 0,
        ensures
            final(self)@ == old(self)@.moved_up(),
            final(self)@.wf(),
    {
        let i = match self.selected {
            Some(i) => {
                if i == 0 {
                    self.texts.len() - 1
                } else {
                    i - 1
                }
            },
            None => 0,
        };
        self.selected = Some(i);
        self.update_selected_prompt_text();
    }

    /// Takes up the text of the selected prompt for editing.
    pub fn update_selected_prompt_text(&mut self)
        requires
            old(self)@.selected matches Some(i) ==> 0 <= i < old(self)@.texts.len(),
        ensures
            final(self)@ == old(self)@.reloaded(),
            final(self)@.wf(),
    {
        match self.selected {
            Some(selected) => {
                self.selected_prompt_text = self.texts[selected].clone();
                self.cursor_position = byte_len(self.selected_prompt_text.as_str());
            },
            None => {
                self.selected_prompt_text = String::new();
                self.cursor_position = 0;
            },
        }
    }

    /// Begins to edit.
    pub fn enter_editing_mode(&mut self)
        ensures
            final(self)@ == (AppView { input_mode: InputMode::Editing, ..old(self)@ }),
    {
        self.input_mode = InputMode::Editing;
    }

    /// Ends the edit and keeps the text.
    pub fn exit_editing_mode(&mut self)
        requires
            old(self)@.wf(),
        ensures
            final(self)@ == old(self)@.committed(),
            final(self)@.wf(),
    {
        match self.selected {
            Some(selected) => {
                let text = self.selected_prompt_text.clone();
                let ghost before = self.texts.deep_view();
                self.texts[selected] = text;
                assert(self.texts.deep_view() =~= before.update(
                    selected as int,
                    self.selected_prompt_text@,
                ));
            },
            None => {},
        }
        self.input_mode = InputMode::Normal;
    }

    /// Ends the edit and gives the text up.
    pub fn discard_editing_mode(&mut self)
        requires
            old(self)@.wf(),
        ensures
            final(self)@ == old(self)@.discarded(),
            final(self)@.wf(),
    {
        self.update_selected_prompt_text();
        self.input_mode = InputMode::Normal;
    }

    /// Moves the cursor one byte to the left.
    pub fn move_cursor_left(&mut self)
        ensures
            final(self)@ == old(self)@.cursor_left(),
            old(self)@.selection_valid() ==> final(self)@.wf(),
    {
        let cursor_moved_left = self.cursor_position.saturating_sub(1);
        self.cursor_position = self.clamp_cursor(cursor_moved_left);
    }

    /// Moves the cursor one byte to the right.
    pub fn move_cursor_right(&mut self)
        ensures
            final(self)@ == old(self)@.cursor_right(),
            old(self)@.selection_valid() ==> final(self)@.wf(),
    {
        let cursor_moved_right = self.cursor_position.saturating_add(1);
        self.cursor_position = self.clamp_cursor(cursor_moved_right);
    }

    /// Puts a character into the text at the cursor and moves the cursor
    /// one byte on.
    pub fn enter_char(&mut self, new_char: char)
        requires
            old(self)@.wf(),
            old(self)@.can_type(),
        ensures
            final(self)@ == old(self)@.typed(new_char),
            final(self)@.wf(),
    {
        let ghost bytes = self@.bytes();
        let ghost at = self.cursor_position as int;
        let (before, after) = self.selected_prompt_text.as_str().split_at(self.cursor_position);
        let mut text = String::from_str(before);
        push_char(&mut text, new_char);
        text.append(after);
        proof {
            encode_utf8_decode_utf8(before@);
            encode_utf8_decode_utf8(after@);
            assert(before@ == decode_utf8(bytes.subrange(0, at)));
            assert(after@ == decode_utf8(bytes.subrange(at, bytes.len() as int)));
        }
        self.selected_prompt_text = text;
        self.move_cursor_right();
    }

    /// Deletes the byte before the cursor and moves the cursor back.
    pub fn delete_char(&mut self)
        requires
            old(self)@.wf(),
            old(self)@.can_erase(),
        ensures
            final(self)@ == old(self)@.erased(),
            final(self)@.wf(),
    {
        let is_not_cursor_leftmost = self.cursor_position != 0;
        if is_not_cursor_leftmost {
            let ghost bytes = self@.bytes();
            let current_index = self.cursor_position;
            let from = current_index - 1;
            let to = current_index;
            let (before, _) = self.selected_prompt_text.as_str().split_at(from);
            let (_, after) = self.selected_prompt_text.as_str().split_at(to);
            let mut text = String::from_str(before);
            text.append(after);
            proof {
                encode_utf8_decode_utf8(before@);
                encode_utf8_decode_utf8(after@);
                assert(before@ == decode_utf8(bytes.subrange(0, from as int)));
                assert(after@ == decode_utf8(bytes.subrange(to as int, bytes.len() as int)));
            }
            self.selected_prompt_text = text;
            self.move_cursor_left();
        }
    }

    /// The nearest position to `new_cursor_pos` that lies in the text under
    /// edit or at its end.
    pub fn clamp_cursor(&self, new_cursor_pos: usize) -> (position: usize)
        ensures
            position == self@.clamped(new_cursor_pos as int),
            self@.bytes().len() <= usize::MAX,
    {
        let len = byte_len(self.selected_prompt_text.as_str());
        if new_cursor_pos > len {
            len
        } else {
            new_cursor_pos
        }
    }

    /// Puts the cursor at the start of the text.
    pub fn reset_cursor(&mut self)
        ensures
            final(self)@ == (AppView { cursor_position: 0, ..old(self)@ }),
    {
        self.cursor_position = 0;
    }

    /// Generates text from the selected prompt and shows it.
    pub fn generate_text(&mut self)
        requires
            old(self)@.wf(),
        ensures
            final(self)@ == old(self)@.generated(),
            final(self)@.wf(),
    {
        match self.selected {
            Some(selected) => {
                let generator = MockTextGenerator;
                self.generated_text = generator.generate(self.texts[selected].as_str());
            },
            None => {
                self.generated_text = String::from_str("No prompt selected for generation.");
            },
        }
        self.input_mode = InputMode::Generating;
    }

    /// Decides whether a key can be handled.
    pub fn can_handle(&self, key: Key) -> (yes: bool)
        requires
            self@.wf(),
        ensures
            yes == self@.takes_key(key),
    {
        match self.input_mode {
            InputMode::Normal => match key {
                Key::Down => self.texts.len() > 0,
                Key::Up => self.texts.len() > 0,
                _ => true,
            },
            InputMode::Editing => match key {
                Key::Char(_) => self.selected_prompt_text.as_str().is_char_boundary(
                    self.cursor_position,
                ),
                Key::Backspace => self.cursor_position == 0 || (
                self.selected_prompt_text.as_str().is_char_boundary(self.cursor_position - 1)
                    && self.selected_prompt_text.as_str().is_char_boundary(self.cursor_position)),
                _ => true,
            },
            InputMode::Generating => true,
        }
    }

    /// Does what a key asks for and tells whether the program is to end.
    pub fn handle_key(&mut self, key: Key) -> (quit: bool)
        requires
            old(self)@.wf(),
            old(self)@.takes_key(key),
        ensures
            quit == old(self)@.quits(key),
            final(self)@ == old(self)@.after_key(key),
            final(self)@.wf(),
    {
        match self.input_mode {
            InputMode::Normal => match key {
                Key::Char(c) => {
                    if c == 'q' {
                        return true;
                    } else if c == 'e' {
                        self.enter_editing_mode();
                    } else if c == 'g' {
                        self.generate_text();
                    }
                },
                Key::Down => self.next(),
                Key::Up => self.previous(),
                _ => {},
            },
            InputMode::Editing => match key {
                Key::Enter => self.exit_editing_mode(),
                Key::Esc => self.discard_editing_mode(),
                Key::Left => self.move_cursor_left(),
                Key::Right => self.move_cursor_right(),
                Key::Backspace => self.delete_char(),
                Key::Char(to_insert) => self.enter_char(to_insert),
                _ => {},
            },
            InputMode::Generating => match key {
                Key::Esc => {
                    self.input_mode = InputMode::Normal;
                },
                _ => {},
            },
        }
        false
    }
}

} // verus!
