use task_calendar::calendar::CalendarDate;
use task_calendar::state::{Action, App, Focus, Key, KeyKind};
use task_calendar::task::{Task, TimeOfDay};

fn clock() -> TimeOfDay {
    TimeOfDay { hour: 9, minute: 30, second: 0, nanosecond: 0 }
}

fn task(name: &str) -> Task {
    Task { name: name.to_string(), completed: false, deadline: None, priority: 1 }
}

fn app_with(names: &[&str]) -> App {
    let tasks = names.iter().map(|n| task(n)).collect();
    App::new(tasks, CalendarDate::new(2024, 1, 15).unwrap(), clock())
}

fn press(app: &mut App, key: Key) -> Action {
    app.handle_key(key, KeyKind::Press)
}

fn type_text(app: &mut App, text: &str) {
    for c in text.chars() {
        assert_eq!(press(app, Key::Char(c)), Action::Continue);
    }
}

#[test]
fn enter_types_a_task_with_priority() {
    let mut app = app_with(&[]);
    press(&mut app, Key::Right);
    assert_eq!(app.focus, Focus::CalendarView);
    assert_eq!(app.days_in_current_month(), 31);
    press(&mut app, Key::Enter);
    assert_eq!(app.focus, Focus::NewTaskEntry);
    type_text(&mut app, "Submit report 3");
    press(&mut app, Key::Enter);
    assert_eq!(app.focus, Focus::CalendarView);
    assert_eq!(app.tasks.len(), 1);
    let t = &app.tasks[0];
    assert_eq!(t.name, "Submit report");
    assert_eq!(t.priority, 3);
    assert!(!t.completed);
    let deadline = t.deadline.unwrap();
    assert_eq!((deadline.date.year, deadline.date.month, deadline.date.day), (2024, 1, 15));
    assert_eq!(deadline.time, clock());
    assert_eq!(app.selected, Some(0));
    assert!(app.input_buffer.is_empty());
}

#[test]
fn enter_types_a_task_without_priority() {
    let mut app = app_with(&["first"]);
    press(&mut app, Key::Right);
    press(&mut app, Key::Enter);
    type_text(&mut app, "Buy milk");
    press(&mut app, Key::Enter);
    assert_eq!(app.tasks.len(), 2);
    assert_eq!(app.tasks[1].name, "Buy milk");
    assert_eq!(app.tasks[1].priority, 1);
    assert_eq!(app.selected, Some(0));
    assert_eq!(app.focus, Focus::CalendarView);
}

#[test]
fn entry_backspace_escape_and_empty_enter() {
    let mut app = app_with(&[]);
    press(&mut app, Key::Right);
    press(&mut app, Key::Enter);
    press(&mut app, Key::Enter);
    assert_eq!(app.focus, Focus::NewTaskEntry);
    assert!(app.tasks.is_empty());
    type_text(&mut app, "ab");
    press(&mut app, Key::Backspace);
    assert_eq!(app.input_buffer, vec!['a']);
    press(&mut app, Key::Esc);
    assert_eq!(app.focus, Focus::CalendarView);
    assert!(app.input_buffer.is_empty());
    assert!(app.tasks.is_empty());
}

#[test]
fn calendar_keys_move_the_cursor() {
    let mut app = app_with(&[]);
    press(&mut app, Key::Right);
    press(&mut app, Key::Right);
    assert_eq!(app.cursor.day, 16);
    press(&mut app, Key::Right);
    assert_eq!(app.cursor.day, 17);
    press(&mut app, Key::Left);
    press(&mut app, Key::Left);
    press(&mut app, Key::Left);
    assert_eq!(app.cursor.day, 14);
    press(&mut app, Key::Down);
    press(&mut app, Key::Down);
    assert_eq!((app.cursor.month, app.cursor.day), (1, 28));
    press(&mut app, Key::Down);
    assert_eq!((app.cursor.year, app.cursor.month, app.cursor.day), (2024, 2, 4));
    press(&mut app, Key::Up);
    assert_eq!((app.cursor.year, app.cursor.month, app.cursor.day), (2024, 1, 28));
    press(&mut app, Key::Char('t'));
    assert_eq!(app.focus, Focus::TaskList);
}

#[test]
fn navigation_on_one_task_and_on_none() {
    let mut one = app_with(&["only"]);
    assert_eq!(one.selected, Some(0));
    one.next_task();
    assert_eq!(one.selected, Some(0));
    one.previous_task();
    assert_eq!(one.selected, Some(0));
    let mut none = app_with(&[]);
    none.next_task();
    assert_eq!(none.selected, None);
    none.previous_task();
    assert_eq!(none.selected, None);
}

#[test]
fn navigation_wraps_around() {
    let mut app = app_with(&["a", "b", "c"]);
    press(&mut app, Key::Up);
    assert_eq!(app.selected, Some(2));
    press(&mut app, Key::Down);
    assert_eq!(app.selected, Some(0));
    press(&mut app, Key::Down);
    assert_eq!(app.selected, Some(1));
}

#[test]
fn deleting_the_last_and_the_only_task() {
    let mut app = app_with(&["a", "b", "c"]);
    app.previous_task();
    assert_eq!(app.selected, Some(2));
    press(&mut app, Key::Backspace);
    assert_eq!(app.tasks.len(), 2);
    assert_eq!(app.selected, Some(1));
    let mut single = app_with(&["only"]);
    press(&mut single, Key::Backspace);
    assert!(single.tasks.is_empty());
    assert_eq!(single.selected, None);
    press(&mut single, Key::Backspace);
    assert_eq!(single.selected, None);
}

#[test]
fn deleting_in_the_middle_keeps_the_index() {
    let mut app = app_with(&["a", "b", "c"]);
    app.next_task();
    press(&mut app, Key::Backspace);
    assert_eq!(app.selected, Some(1));
    assert_eq!(app.tasks[1].name, "c");
    assert_eq!(app.selected_task().unwrap().name, "c");
}

#[test]
fn focus_changes_and_quit() {
    let mut app = app_with(&["a"]);
    press(&mut app, Key::Enter);
    assert_eq!(app.focus, Focus::TaskDetail);
    press(&mut app, Key::Down);
    assert_eq!(app.focus, Focus::TaskDetail);
    press(&mut app, Key::Esc);
    assert_eq!(app.focus, Focus::TaskList);
    assert_eq!(press(&mut app, Key::Char('q')), Action::Quit);
    assert_eq!(app.focus, Focus::TaskList);
}

#[test]
fn releases_are_ignored() {
    let mut app = app_with(&["a", "b"]);
    assert_eq!(app.handle_key(Key::Down, KeyKind::Release), Action::Continue);
    assert_eq!(app.handle_key(Key::Char('q'), KeyKind::Release), Action::Continue);
    assert_eq!(app.selected, Some(0));
    assert_eq!(app.handle_key(Key::Down, KeyKind::Press), Action::Continue);
    assert_eq!(app.selected, Some(1));
}
