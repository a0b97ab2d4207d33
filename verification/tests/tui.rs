use prompts_cli::tui::{App, InputMode, Key};

fn app() -> App {
    App::new(vec!["one".to_string(), "two".to_string(), "three".to_string()])
}

#[test]
fn at_the_start_the_first_prompt_is_selected() {
    let app = app();
    assert_eq!(app.selected(), Some(0));
    assert_eq!(app.input_mode(), InputMode::Normal);
    assert_eq!(app.selected_prompt_text(), "one");
    assert_eq!(app.cursor_position(), 3);
    assert_eq!(app.generated_text(), "");
    assert_eq!(app.texts().len(), 3);
}

#[test]
fn without_prompts_nothing_is_selected() {
    let app = App::new(vec![]);
    assert_eq!(app.selected(), None);
    assert_eq!(app.selected_prompt_text(), "");
    assert_eq!(app.cursor_position(), 0);
}

#[test]
fn next_goes_round() {
    let mut app = app();
    app.next();
    assert_eq!(app.selected(), Some(1));
    assert_eq!(app.selected_prompt_text(), "two");
    assert_eq!(app.cursor_position(), 3);
    app.next();
    assert_eq!(app.selected(), Some(2));
    assert_eq!(app.selected_prompt_text(), "three");
    assert_eq!(app.cursor_position(), 5);
    app.next();
    assert_eq!(app.selected(), Some(0));
    assert_eq!(app.selected_prompt_text(), "one");
}

#[test]
fn previous_goes_round() {
    let mut app = app();
    app.previous();
    assert_eq!(app.selected(), Some(2));
    assert_eq!(app.selected_prompt_text(), "three");
    app.previous();
    assert_eq!(app.selected(), Some(1));
    app.previous();
    assert_eq!(app.selected(), Some(0));
}

#[test]
fn with_one_prompt_the_selection_stays() {
    let mut app = App::new(vec!["only".to_string()]);
    app.next();
    assert_eq!(app.selected(), Some(0));
    app.previous();
    assert_eq!(app.selected(), Some(0));
}

#[test]
fn keys_in_normal_mode() {
    let mut app = app();
    assert!(!app.handle_key(Key::Down));
    assert_eq!(app.selected(), Some(1));
    assert!(!app.handle_key(Key::Up));
    assert_eq!(app.selected(), Some(0));
    assert!(!app.handle_key(Key::Char('x')));
    assert!(!app.handle_key(Key::Enter));
    assert!(!app.handle_key(Key::Other));
    assert_eq!(app.input_mode(), InputMode::Normal);
    assert_eq!(app.selected_prompt_text(), "one");
    assert!(app.handle_key(Key::Char('q')));
    assert!(!app.handle_key(Key::Char('e')));
    assert_eq!(app.input_mode(), InputMode::Editing);
}

#[test]
fn typing_and_deleting() {
    let mut app = app();
    app.handle_key(Key::Char('e'));
    assert!(!app.handle_key(Key::Char('q')));
    assert_eq!(app.selected_prompt_text(), "oneq");
    assert_eq!(app.cursor_position(), 4);
    app.handle_key(Key::Left);
    app.handle_key(Key::Left);
    assert_eq!(app.cursor_position(), 2);
    app.handle_key(Key::Char('X'));
    assert_eq!(app.selected_prompt_text(), "onXeq");
    assert_eq!(app.cursor_position(), 3);
    app.handle_key(Key::Backspace);
    assert_eq!(app.selected_prompt_text(), "oneq");
    assert_eq!(app.cursor_position(), 2);
    app.handle_key(Key::Backspace);
    app.handle_key(Key::Backspace);
    assert_eq!(app.selected_prompt_text(), "eq");
    assert_eq!(app.cursor_position(), 0);
    app.handle_key(Key::Backspace);
    assert_eq!(app.selected_prompt_text(), "eq");
    assert_eq!(app.cursor_position(), 0);
    app.handle_key(Key::Left);
    assert_eq!(app.cursor_position(), 0);
    app.handle_key(Key::Right);
    app.handle_key(Key::Right);
    app.handle_key(Key::Right);
    assert_eq!(app.cursor_position(), 2);
    assert!(app.can_handle(Key::Char('é')));
    app.handle_key(Key::Char('é'));
    assert_eq!(app.selected_prompt_text(), "eqé");
    assert_eq!(app.cursor_position(), 3);
}

#[test]
fn the_cursor_counts_bytes() {
    let mut app = App::new(vec!["é".to_string(), "aé".to_string()]);
    assert_eq!(app.cursor_position(), 2);
    app.handle_key(Key::Down);
    assert_eq!(app.cursor_position(), 3);
    app.handle_key(Key::Char('e'));
    assert!(app.can_handle(Key::Char('x')));
    assert!(!app.can_handle(Key::Backspace));
    app.handle_key(Key::Left);
    assert_eq!(app.cursor_position(), 2);
    assert!(!app.can_handle(Key::Char('x')));
    assert!(!app.can_handle(Key::Backspace));
    assert!(app.can_handle(Key::Left));
    assert!(app.can_handle(Key::Enter));
    app.handle_key(Key::Left);
    assert_eq!(app.cursor_position(), 1);
    assert!(app.can_handle(Key::Backspace));
    app.handle_key(Key::Char('é'));
    assert_eq!(app.selected_prompt_text(), "aéé");
    assert_eq!(app.cursor_position(), 2);
    assert!(!app.can_handle(Key::Char('x')));
    app.handle_key(Key::Left);
    app.handle_key(Key::Backspace);
    assert_eq!(app.selected_prompt_text(), "éé");
    assert_eq!(app.cursor_position(), 0);
    assert!(app.can_handle(Key::Backspace));
    app.handle_key(Key::Backspace);
    assert_eq!(app.selected_prompt_text(), "éé");
}

#[test]
fn keys_that_cannot_be_handled() {
    let empty = App::new(vec![]);
    assert!(!empty.can_handle(Key::Down));
    assert!(!empty.can_handle(Key::Up));
    assert!(empty.can_handle(Key::Char('q')));
    assert!(empty.can_handle(Key::Char('g')));
    let mut app = app();
    for key in [Key::Down, Key::Up, Key::Char('x'), Key::Backspace, Key::Enter, Key::Esc, Key::Left, Key::Right, Key::Other] {
        assert!(app.can_handle(key));
    }
    app.handle_key(Key::Char('g'));
    for key in [Key::Down, Key::Up, Key::Char('x'), Key::Backspace, Key::Esc] {
        assert!(app.can_handle(key));
    }
}

#[test]
fn enter_keeps_the_edit() {
    let mut app = app();
    app.handle_key(Key::Char('e'));
    app.handle_key(Key::Char('!'));
    app.handle_key(Key::Enter);
    assert_eq!(app.input_mode(), InputMode::Normal);
    assert_eq!(app.texts()[0], "one!");
    assert_eq!(app.texts()[1], "two");
    app.handle_key(Key::Down);
    app.handle_key(Key::Up);
    assert_eq!(app.selected_prompt_text(), "one!");
}

#[test]
fn esc_gives_the_edit_up() {
    let mut app = app();
    app.handle_key(Key::Char('e'));
    app.handle_key(Key::Char('!'));
    app.handle_key(Key::Left);
    app.handle_key(Key::Esc);
    assert_eq!(app.input_mode(), InputMode::Normal);
    assert_eq!(app.texts()[0], "one");
    assert_eq!(app.selected_prompt_text(), "one");
    assert_eq!(app.cursor_position(), 3);
}

#[test]
fn generating() {
    let mut app = app();
    app.handle_key(Key::Char('g'));
    assert_eq!(app.input_mode(), InputMode::Generating);
    assert_eq!(
        app.generated_text(),
        "Generated text for 'one': one\n(This is a mock generation)"
    );
    assert!(!app.handle_key(Key::Char('q')));
    assert!(!app.handle_key(Key::Down));
    assert_eq!(app.selected(), Some(0));
    assert_eq!(app.input_mode(), InputMode::Generating);
    app.handle_key(Key::Esc);
    assert_eq!(app.input_mode(), InputMode::Normal);
}

#[test]
fn generating_without_a_selection() {
    let mut app = App::new(vec![]);
    app.generate_text();
    assert_eq!(app.generated_text(), "No prompt selected for generation.");
    assert_eq!(app.input_mode(), InputMode::Generating);
}

#[test]
fn the_cursor_is_kept_in_the_text() {
    let mut app = app();
    assert_eq!(app.clamp_cursor(0), 0);
    assert_eq!(app.clamp_cursor(3), 3);
    assert_eq!(app.clamp_cursor(4), 3);
    assert_eq!(app.clamp_cursor(usize::MAX), 3);
    app.reset_cursor();
    assert_eq!(app.cursor_position(), 0);
    app.move_cursor_left();
    assert_eq!(app.cursor_position(), 0);
    app.move_cursor_right();
    assert_eq!(app.cursor_position(), 1);
    app.enter_char('-');
    assert_eq!(app.selected_prompt_text(), "o-ne");
    app.delete_char();
    assert_eq!(app.selected_prompt_text(), "one");
    app.enter_editing_mode();
    app.exit_editing_mode();
    assert_eq!(app.input_mode(), InputMode::Normal);
    app.enter_editing_mode();
    app.discard_editing_mode();
    assert_eq!(app.input_mode(), InputMode::Normal);
    app.update_selected_prompt_text();
    assert_eq!(app.cursor_position(), 3);
}
