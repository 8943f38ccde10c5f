use ghostline::failure::Failure;
use ghostline::terminal::{
    cursor_column, displayed, list_step, main_menu, prompt_text, scrolled_lines, select_friend,
    show_message, Key, KeyKind, ListStep, MenuAction, MenuStep, PromptStep, TerminalEvent,
};

fn press(key: Key) -> TerminalEvent {
    TerminalEvent::Key(KeyKind::Press, key)
}

#[test]
fn the_menu_moves_within_its_lines() {
    assert_eq!(main_menu(0, press(Key::Down)), MenuStep::Select(1));
    assert_eq!(main_menu(2, press(Key::Char('j'))), MenuStep::Select(3));
    assert_eq!(main_menu(3, press(Key::Down)), MenuStep::Select(3));
    assert_eq!(main_menu(3, press(Key::Up)), MenuStep::Select(2));
    assert_eq!(main_menu(0, press(Key::Char('k'))), MenuStep::Select(0));
    assert_eq!(main_menu(1, press(Key::Char('x'))), MenuStep::Select(1));
}

#[test]
fn the_menu_acts_on_the_chosen_line() {
    assert_eq!(main_menu(0, press(Key::Enter)), MenuStep::Act(MenuAction::GenerateInvite));
    assert_eq!(main_menu(1, press(Key::Enter)), MenuStep::Act(MenuAction::Join));
    assert_eq!(main_menu(2, press(Key::Enter)), MenuStep::Act(MenuAction::Talk));
    assert_eq!(main_menu(3, press(Key::Enter)), MenuStep::Act(MenuAction::Exit));
    assert_eq!(main_menu(0, press(Key::Esc)), MenuStep::Act(MenuAction::Exit));
    assert_eq!(main_menu(1, press(Key::Char('q'))), MenuStep::Act(MenuAction::Exit));
}

#[test]
fn only_key_presses_count() {
    for kind in [KeyKind::Repeat, KeyKind::Release] {
        let event = TerminalEvent::Key(kind, Key::Enter);
        assert_eq!(event.pressed(), None);
        assert_eq!(main_menu(1, event), MenuStep::Select(1));
        assert!(!show_message(event));
        let mut value = String::from("a");
        assert_eq!(prompt_text(&mut value, event), PromptStep::Edit);
        assert_eq!(value, "a");
    }
    assert_eq!(TerminalEvent::Other.pressed(), None);
    assert_eq!(press(Key::Esc).pressed(), Some(Key::Esc));
}

#[test]
fn friends_are_picked_from_a_list() {
    assert_eq!(select_friend(0), Err(Failure::NoFriends));
    assert_eq!(select_friend(3), Ok(0));
    assert_eq!(list_step(1, 3, press(Key::Enter)), ListStep::Choose(1));
    assert_eq!(list_step(2, 3, press(Key::Down)), ListStep::Select(2));
    assert_eq!(list_step(0, 1, press(Key::Up)), ListStep::Select(0));
    assert_eq!(list_step(1, 3, press(Key::Esc)), ListStep::Leave);
    assert_eq!(list_step(1, 3, press(Key::Char('q'))), ListStep::Leave);
    assert_eq!(list_step(1, 3, TerminalEvent::Other), ListStep::Select(1));
}

#[test]
fn prompts_are_typed_into() {
    let mut value = String::new();
    assert_eq!(prompt_text(&mut value, press(Key::Backspace)), PromptStep::Edit);
    assert_eq!(value, "");
    assert_eq!(prompt_text(&mut value, press(Key::Char('ž'))), PromptStep::Edit);
    assert_eq!(prompt_text(&mut value, press(Key::Char('q'))), PromptStep::Edit);
    assert_eq!(value, "žq");
    assert_eq!(prompt_text(&mut value, press(Key::Backspace)), PromptStep::Edit);
    assert_eq!(value, "ž");
    assert_eq!(prompt_text(&mut value, press(Key::Up)), PromptStep::Edit);
    assert_eq!(prompt_text(&mut value, press(Key::Enter)), PromptStep::Submit);
    assert_eq!(prompt_text(&mut value, press(Key::Esc)), PromptStep::Cancel);
    assert_eq!(value, "ž");
}

#[test]
fn notices_are_closed_by_three_keys() {
    assert!(show_message(press(Key::Enter)));
    assert!(show_message(press(Key::Esc)));
    assert!(show_message(press(Key::Char('q'))));
    assert!(!show_message(press(Key::Char('x'))));
    assert!(!show_message(TerminalEvent::Other));
}

#[test]
fn secrets_are_shown_as_dots() {
    assert_eq!(displayed("héslo", true), "•••••");
    assert_eq!(displayed("", true), "");
    assert_eq!(displayed("héslo", false), "héslo");
}

#[test]
fn the_cursor_stops_at_the_border() {
    assert_eq!(cursor_column(0, 0, 80), 1);
    assert_eq!(cursor_column(2, 5, 80), 8);
    assert_eq!(cursor_column(0, 100, 80), 79);
    assert_eq!(cursor_column(0, 3, 0), 0);
    assert_eq!(cursor_column(0, 65536 + 4, 80), 5);
}

#[test]
fn the_last_lines_of_a_chat_stay_visible() {
    assert_eq!(scrolled_lines(3, 10), 0);
    assert_eq!(scrolled_lines(10, 10), 2);
    assert_eq!(scrolled_lines(5, 1), 5);
    assert_eq!(scrolled_lines(5, 2), 5);
    assert_eq!(scrolled_lines(65536 + 10, 2), 10);
}
