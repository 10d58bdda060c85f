use pydors::command::Command;
use pydors::document::Document;
use pydors::if_else;
use pydors::session::{active_length, down, up, Action, Event, Key, Session, Tab};

fn document(tasks: usize, notes: usize) -> Document {
    let mut document = Document::template();
    for i in 0..tasks {
        document.add(format!("task {}", i));
    }
    for i in 0..notes {
        document.remember(format!("note {}", i));
    }
    document
}

fn browsing(selected: Tab, position: usize) -> Session {
    Session { selected, position, is_writing: false, text: String::new() }
}

fn writing(selected: Tab, text: &str) -> Session {
    Session { selected, position: 2, is_writing: true, text: text.to_string() }
}

fn press(session: &mut Session, key: Key, pydo: &Document) -> Action {
    session.step(Event::Input(key), pydo)
}

#[test]
fn if_else_picks_by_the_condition() {
    assert_eq!(if_else(true, 1, 2), 1);
    assert_eq!(if_else(false, 1, 2), 2);
    assert_eq!(if_else(false, "a".to_string(), "b".to_string()), "b");
}

#[test]
fn cursor_wraps_in_both_directions() {
    let pydo = document(3, 0);
    assert_eq!(up(0, Tab::Tasks, &pydo), 2);
    assert_eq!(down(2, Tab::Tasks, &pydo), 0);
}

#[test]
fn cursor_moves_by_one_inside_the_list() {
    let pydo = document(3, 5);
    assert_eq!(up(2, Tab::Tasks, &pydo), 1);
    assert_eq!(up(1, Tab::Tasks, &pydo), 0);
    assert_eq!(down(0, Tab::Tasks, &pydo), 1);
    assert_eq!(down(1, Tab::Tasks, &pydo), 2);
    assert_eq!(up(0, Tab::Remember, &pydo), 4);
    assert_eq!(down(4, Tab::Remember, &pydo), 0);
    assert_eq!(down(2, Tab::Remember, &pydo), 3);
    assert_eq!(active_length(Tab::Tasks, &pydo), 3);
    assert_eq!(active_length(Tab::Remember, &pydo), 5);
}

#[test]
fn cursor_on_an_empty_list() {
    let pydo = document(0, 0);
    assert_eq!(up(0, Tab::Tasks, &pydo), 0);
    assert_eq!(up(0, Tab::Remember, &pydo), 0);
    assert_eq!(down(0, Tab::Tasks, &pydo), 1);
}

#[test]
fn cursor_past_the_end_of_the_list() {
    let pydo = document(3, 0);
    assert_eq!(up(7, Tab::Tasks, &pydo), 6);
    assert_eq!(up(3, Tab::Tasks, &pydo), 2);
    assert_eq!(down(3, Tab::Tasks, &pydo), 4);
    assert_eq!(down(7, Tab::Tasks, &pydo), 8);
}

#[test]
fn cursor_on_a_single_row() {
    let pydo = document(1, 0);
    assert_eq!(up(0, Tab::Tasks, &pydo), 0);
    assert_eq!(down(0, Tab::Tasks, &pydo), 0);
}

#[test]
fn session_starts_browsing_the_tasks() {
    assert_eq!(Session::new(), browsing(Tab::Tasks, 0));
}

#[test]
fn tick_changes_nothing() {
    let pydo = document(3, 3);
    let mut session = browsing(Tab::Remember, 2);
    assert_eq!(session.step(Event::Tick, &pydo), Action::Continue);
    assert_eq!(session, browsing(Tab::Remember, 2));
    let mut session = writing(Tab::Tasks, "abc");
    assert_eq!(session.step(Event::Tick, &pydo), Action::Continue);
    assert_eq!(session, writing(Tab::Tasks, "abc"));
}

#[test]
fn quit_leaves_the_loop() {
    let pydo = document(3, 3);
    let mut session = browsing(Tab::Remember, 2);
    assert_eq!(press(&mut session, Key::Char('q'), &pydo), Action::Quit);
    assert_eq!(session, browsing(Tab::Remember, 2));
}

#[test]
fn tabs_reset_the_cursor() {
    let pydo = document(3, 3);
    let mut session = browsing(Tab::Tasks, 2);
    assert_eq!(press(&mut session, Key::Char('r'), &pydo), Action::Continue);
    assert_eq!(session, browsing(Tab::Remember, 0));
    session.position = 1;
    assert_eq!(press(&mut session, Key::Char('r'), &pydo), Action::Continue);
    assert_eq!(session, browsing(Tab::Remember, 0));
    session.position = 1;
    assert_eq!(press(&mut session, Key::Char('t'), &pydo), Action::Continue);
    assert_eq!(session, browsing(Tab::Tasks, 0));
}

#[test]
fn clear_completed_only_on_the_tasks_tab() {
    let pydo = document(3, 3);
    let mut session = browsing(Tab::Tasks, 2);
    assert_eq!(
        press(&mut session, Key::Char('c'), &pydo),
        Action::Run(Command::RemoveCompleted)
    );
    assert_eq!(session, browsing(Tab::Tasks, 0));
    let mut session = browsing(Tab::Remember, 2);
    assert_eq!(press(&mut session, Key::Char('c'), &pydo), Action::Continue);
    assert_eq!(session, browsing(Tab::Remember, 0));
}

#[test]
fn enter_toggles_the_task_under_the_cursor() {
    let pydo = document(3, 5);
    let mut session = browsing(Tab::Tasks, 2);
    assert_eq!(press(&mut session, Key::Enter, &pydo), Action::Run(Command::Complete(2)));
    assert_eq!(session, browsing(Tab::Tasks, 2));
    let mut session = browsing(Tab::Tasks, 3);
    assert_eq!(press(&mut session, Key::Enter, &pydo), Action::Continue);
    assert_eq!(session, browsing(Tab::Tasks, 3));
    let mut session = browsing(Tab::Remember, 1);
    assert_eq!(press(&mut session, Key::Enter, &pydo), Action::Continue);
    assert_eq!(session, browsing(Tab::Remember, 1));
}

#[test]
fn backspace_deletes_the_entry_under_the_cursor() {
    let pydo = document(3, 2);
    let mut session = browsing(Tab::Tasks, 2);
    assert_eq!(press(&mut session, Key::Backspace, &pydo), Action::Run(Command::Remove(2)));
    assert_eq!(session, browsing(Tab::Tasks, 1));
    let mut session = browsing(Tab::Tasks, 1);
    assert_eq!(press(&mut session, Key::Backspace, &pydo), Action::Run(Command::Remove(1)));
    assert_eq!(session, browsing(Tab::Tasks, 0));
    let mut session = browsing(Tab::Remember, 1);
    assert_eq!(
        press(&mut session, Key::Backspace, &pydo),
        Action::Run(Command::RemoveRemember(1))
    );
    assert_eq!(session, browsing(Tab::Remember, 0));
}

#[test]
fn backspace_on_the_first_row_wraps_into_the_shorter_list() {
    let pydo = document(3, 1);
    let mut session = browsing(Tab::Tasks, 0);
    assert_eq!(press(&mut session, Key::Backspace, &pydo), Action::Run(Command::Remove(0)));
    assert_eq!(session, browsing(Tab::Tasks, 1));
    let mut session = browsing(Tab::Remember, 0);
    assert_eq!(
        press(&mut session, Key::Backspace, &pydo),
        Action::Run(Command::RemoveRemember(0))
    );
    assert_eq!(session, browsing(Tab::Remember, 0));
}

#[test]
fn backspace_past_the_end_only_moves_the_cursor() {
    let pydo = document(3, 0);
    let mut session = browsing(Tab::Tasks, 5);
    assert_eq!(press(&mut session, Key::Backspace, &pydo), Action::Continue);
    assert_eq!(session, browsing(Tab::Tasks, 4));
    let mut session = browsing(Tab::Remember, 0);
    assert_eq!(press(&mut session, Key::Backspace, &pydo), Action::Continue);
    assert_eq!(session, browsing(Tab::Remember, 0));
}

#[test]
fn arrows_move_the_cursor() {
    let pydo = document(3, 0);
    let mut session = browsing(Tab::Tasks, 0);
    assert_eq!(press(&mut session, Key::Up, &pydo), Action::Continue);
    assert_eq!(session.position, 2);
    assert_eq!(press(&mut session, Key::Down, &pydo), Action::Continue);
    assert_eq!(session.position, 0);
    assert_eq!(press(&mut session, Key::Down, &pydo), Action::Continue);
    assert_eq!(session.position, 1);
    assert_eq!(press(&mut session, Key::Up, &pydo), Action::Continue);
    assert_eq!(session.position, 0);
}

#[test]
fn other_keys_do_nothing_while_browsing() {
    let pydo = document(3, 3);
    for key in [Key::Other, Key::Esc, Key::Char('x'), Key::Char('Q'), Key::Char(' ')] {
        let mut session = browsing(Tab::Tasks, 1);
        assert_eq!(press(&mut session, key, &pydo), Action::Continue);
        assert_eq!(session, browsing(Tab::Tasks, 1));
    }
}

#[test]
fn add_key_enters_text_entry() {
    let pydo = document(3, 3);
    let mut session = browsing(Tab::Remember, 1);
    assert_eq!(press(&mut session, Key::Char('a'), &pydo), Action::Continue);
    assert_eq!(
        session,
        Session { selected: Tab::Remember, position: 1, is_writing: true, text: String::new() }
    );
}

#[test]
fn typing_fills_the_buffer() {
    let pydo = document(3, 3);
    let mut session = writing(Tab::Tasks, "");
    for c in ['q', 't', ' ', 'a', '\u{e9}'] {
        assert_eq!(press(&mut session, Key::Char(c), &pydo), Action::Continue);
    }
    assert_eq!(session, writing(Tab::Tasks, "qt a\u{e9}"));
    assert_eq!(press(&mut session, Key::Backspace, &pydo), Action::Continue);
    assert_eq!(session, writing(Tab::Tasks, "qt a"));
    for key in [Key::Up, Key::Down, Key::Other] {
        assert_eq!(press(&mut session, key, &pydo), Action::Continue);
        assert_eq!(session, writing(Tab::Tasks, "qt a"));
    }
}

#[test]
fn backspace_on_an_empty_buffer() {
    let pydo = document(0, 0);
    let mut session = writing(Tab::Tasks, "");
    assert_eq!(press(&mut session, Key::Backspace, &pydo), Action::Continue);
    assert_eq!(session, writing(Tab::Tasks, ""));
}

#[test]
fn escape_discards_the_buffer() {
    let pydo = document(3, 3);
    let mut session = writing(Tab::Remember, "half");
    assert_eq!(press(&mut session, Key::Esc, &pydo), Action::Continue);
    assert_eq!(session, browsing(Tab::Remember, 0));
}

#[test]
fn enter_commits_to_the_active_tab() {
    let pydo = document(3, 3);
    let mut session = writing(Tab::Tasks, "buy milk");
    assert_eq!(
        press(&mut session, Key::Enter, &pydo),
        Action::Run(Command::Add("buy milk".to_string()))
    );
    assert_eq!(session, browsing(Tab::Tasks, 0));
    let mut session = writing(Tab::Remember, "keys");
    assert_eq!(
        press(&mut session, Key::Enter, &pydo),
        Action::Run(Command::Remember("keys".to_string()))
    );
    assert_eq!(session, browsing(Tab::Remember, 0));
    let mut session = writing(Tab::Tasks, "");
    assert_eq!(
        press(&mut session, Key::Enter, &pydo),
        Action::Run(Command::Add(String::new()))
    );
}

#[test]
fn a_whole_session_against_the_store() {
    let mut pydo = Document::template();
    let mut session = Session::new();
    let keys = [
        Key::Char('a'),
        Key::Char('o'),
        Key::Char('n'),
        Key::Char('e'),
        Key::Enter,
        Key::Char('a'),
        Key::Char('t'),
        Key::Char('w'),
        Key::Char('o'),
        Key::Enter,
        Key::Down,
        Key::Enter,
        Key::Char('r'),
        Key::Char('a'),
        Key::Char('n'),
        Key::Enter,
        Key::Char('t'),
        Key::Backspace,
    ];
    for key in keys {
        if let Action::Run(command) = press(&mut session, key, &pydo) {
            assert_eq!(pydo.apply(command), Ok(true));
        }
    }
    assert_eq!(pydo.tasks.len(), 1);
    assert_eq!(pydo.tasks[0].task, "two");
    assert!(pydo.tasks[0].completed);
    assert_eq!(pydo.remember_items.len(), 1);
    assert_eq!(pydo.remember_items[0].item, "n");
    assert_eq!(pydo.completed_tasks, 1);
    assert_eq!(pydo.unfinished_tasks, 0);
    assert_eq!(session, browsing(Tab::Tasks, 0));
}

#[test]
fn only_down_from_the_largest_position_cannot_be_taken() {
    let top = browsing(Tab::Tasks, usize::MAX);
    assert!(!top.can_step(Event::Input(Key::Down)));
    for event in [
        Event::Tick,
        Event::Input(Key::Up),
        Event::Input(Key::Enter),
        Event::Input(Key::Backspace),
        Event::Input(Key::Esc),
        Event::Input(Key::Other),
        Event::Input(Key::Char('q')),
    ] {
        assert!(top.can_step(event));
    }
    assert!(browsing(Tab::Tasks, usize::MAX - 1).can_step(Event::Input(Key::Down)));
    assert!(browsing(Tab::Remember, 0).can_step(Event::Input(Key::Down)));
    let mut typing = writing(Tab::Tasks, "x");
    typing.position = usize::MAX;
    assert!(typing.can_step(Event::Input(Key::Down)));
}

#[test]
fn every_other_event_is_taken_at_the_largest_position() {
    let pydo = document(3, 0);
    let mut session = browsing(Tab::Tasks, usize::MAX);
    assert_eq!(session.step(Event::Tick, &pydo), Action::Continue);
    assert_eq!(press(&mut session, Key::Enter, &pydo), Action::Continue);
    assert_eq!(session.position, usize::MAX);
    assert_eq!(press(&mut session, Key::Up, &pydo), Action::Continue);
    assert_eq!(session.position, usize::MAX - 1);
    let mut typing = writing(Tab::Tasks, "x");
    typing.position = usize::MAX;
    assert_eq!(press(&mut typing, Key::Down, &pydo), Action::Continue);
    assert_eq!(typing.position, usize::MAX);
    assert_eq!(typing.text, "x");
}
