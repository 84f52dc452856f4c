use tasklist::session::{parse_command, Action, Command, Mode, Session};
use tasklist::task::{Task, TaskList};

fn snapshot(list: &TaskList) -> Vec<(u32, String, bool)> {
    list.tasks.iter().map(|t| (t.id, t.description.clone(), t.done)).collect()
}

const MENU: &str = "Options:\n1. Add Task to list\n2. Mark Task as Complete\n3. End\n";

#[test]
fn commands() {
    assert_eq!(parse_command("1"), Command::Add);
    assert_eq!(parse_command("2"), Command::Complete);
    assert_eq!(parse_command("3"), Command::End);
    assert_eq!(parse_command(""), Command::Invalid);
    assert_eq!(parse_command("4"), Command::Invalid);
    assert_eq!(parse_command("12"), Command::Invalid);
}

#[test]
fn start_without_data_is_empty() {
    let s = Session::start(None);
    assert_eq!(s.list.len(), 0);
    assert_eq!(s.mode, Mode::Menu);
    assert_eq!(s.screen(), format!("ToDo List:\n{}", MENU));
}

#[test]
fn start_with_loaded_tasks_keeps_them() {
    let list = TaskList { tasks: vec![Task { id: 1, description: "a".to_string(), done: true }] };
    let s = Session::start(Some(list));
    assert_eq!(snapshot(&s.list), vec![(1, "a".to_string(), true)]);
}

#[test]
fn invalid_choice_shows_menu_again() {
    let mut s = Session::start(None);
    let r = s.step("9");
    assert_eq!(r.action, Action::Continue);
    assert_eq!(r.text, format!("Invalid option. Please input option 1 to 3.\n\nToDo List:\n{}", MENU));
    assert_eq!(s.mode, Mode::Menu);
}

#[test]
fn malformed_id_aborts() {
    let mut s = Session::start(None);
    s.step("2");
    let r = s.step("abc");
    assert_eq!(r.action, Action::Abort);
}

#[test]
fn first_session_scenario() {
    let mut s = Session::start(None);
    assert_eq!(s.step("1").text, "Enter task description:\n");
    assert_eq!(s.mode, Mode::Description);
    s.step("Buy milk");
    s.step("1");
    s.step("Walk dog");
    assert_eq!(s.step("2").text, "Enter the task ID to mark as complete:\n");
    let r = s.step("1");
    assert_eq!(r.action, Action::Continue);
    assert_eq!(
        r.text,
        format!(
            "Task marked as done.\nToDo List:\n[✓] 1 Buy milk\n[ ] 2 Walk dog\nYou have 1 completed task(s).\n\n{}",
            MENU
        )
    );
    let r = s.step("3");
    assert_eq!(r.action, Action::SaveAndExit);
    assert_eq!(r.text, "Ending now.\n");
    assert_eq!(
        snapshot(&s.list),
        vec![(1, "Buy milk".to_string(), true), (2, "Walk dog".to_string(), false)]
    );
}

fn two_tasks_one_done() -> TaskList {
    TaskList {
        tasks: vec![
            Task { id: 1, description: "Buy milk".to_string(), done: true },
            Task { id: 2, description: "Walk dog".to_string(), done: false },
        ],
    }
}

#[test]
fn second_session_scenario() {
    let mut s = Session::start(Some(two_tasks_one_done()));
    let before = snapshot(&s.list);
    s.step("2");
    let r = s.step("1");
    assert!(r.text.starts_with("Task is already marked as done.\n"));
    assert_eq!(snapshot(&s.list), before);
    assert_eq!(s.step("3").action, Action::SaveAndExit);
    assert_eq!(snapshot(&s.list), before);
}

#[test]
fn missing_id_scenario() {
    let mut s = Session::start(Some(two_tasks_one_done()));
    let before = snapshot(&s.list);
    s.step("2");
    let r = s.step("99");
    assert_eq!(r.action, Action::Continue);
    assert!(r.text.starts_with("Task not found.\n"));
    assert_eq!(snapshot(&s.list), before);
    assert_eq!(s.mode, Mode::Menu);
}
