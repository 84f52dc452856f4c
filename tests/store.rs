use tasklist::task::{add_task, count_done, mark_task_done, MarkError, Task, TaskList};

fn list_of(items: &[(u32, &str, bool)]) -> TaskList {
    TaskList {
        tasks: items
            .iter()
            .map(|(id, d, done)| Task { id: *id, description: d.to_string(), done: *done })
            .collect(),
    }
}

fn snapshot(list: &TaskList) -> Vec<(u32, String, bool)> {
    list.tasks.iter().map(|t| (t.id, t.description.clone(), t.done)).collect()
}

#[test]
fn add_assigns_positional_ids() {
    let mut list = TaskList::new();
    for (k, d) in ["a", "b", "c", "d"].iter().enumerate() {
        add_task(&mut list, d.to_string());
        assert_eq!(list.len(), k + 1);
        assert_eq!(list.tasks[k].id as usize, k + 1);
        assert_eq!(list.tasks[k].description, *d);
        assert!(!list.tasks[k].done);
    }
}

#[test]
fn add_keeps_existing_tasks() {
    let mut list = list_of(&[(1, "x", true), (2, "y", false)]);
    add_task(&mut list, String::from("z"));
    assert_eq!(
        snapshot(&list),
        vec![(1, "x".to_string(), true), (2, "y".to_string(), false), (3, "z".to_string(), false)]
    );
}

#[test]
fn add_empty_description_is_accepted() {
    let mut list = TaskList::new();
    add_task(&mut list, String::new());
    assert_eq!(snapshot(&list), vec![(1, String::new(), false)]);
}

#[test]
fn mark_done_then_already_done() {
    let mut list = list_of(&[(1, "a", false), (2, "b", false)]);
    assert_eq!(mark_task_done(&mut list, 2), Ok(()));
    let after_first = snapshot(&list);
    assert_eq!(after_first, vec![(1, "a".to_string(), false), (2, "b".to_string(), true)]);
    assert_eq!(mark_task_done(&mut list, 2), Err(MarkError::AlreadyDone));
    assert_eq!(snapshot(&list), after_first);
    assert_eq!(mark_task_done(&mut list, 2), Err(MarkError::AlreadyDone));
    assert_eq!(snapshot(&list), after_first);
}

#[test]
fn mark_missing_id_is_not_found() {
    let mut list = list_of(&[(1, "a", false), (2, "b", true)]);
    let before = snapshot(&list);
    assert_eq!(mark_task_done(&mut list, 99), Err(MarkError::NotFound));
    assert_eq!(snapshot(&list), before);
    assert_eq!(mark_task_done(&mut list, 0), Err(MarkError::NotFound));
    assert_eq!(snapshot(&list), before);
}

#[test]
fn mark_on_empty_list_is_not_found() {
    let mut list = TaskList::new();
    assert_eq!(mark_task_done(&mut list, 1), Err(MarkError::NotFound));
    assert_eq!(list.len(), 0);
}

#[test]
fn mark_duplicate_ids_first_wins() {
    let mut list = list_of(&[(1, "a", false), (5, "b", false), (5, "c", false)]);
    assert_eq!(mark_task_done(&mut list, 5), Ok(()));
    assert_eq!(
        snapshot(&list),
        vec![(1, "a".to_string(), false), (5, "b".to_string(), true), (5, "c".to_string(), false)]
    );
    // the first match is done now, so the later one is never reached
    assert_eq!(mark_task_done(&mut list, 5), Err(MarkError::AlreadyDone));
    assert!(!list.tasks[2].done);
}

#[test]
fn count_done_counts_finished_tasks() {
    assert_eq!(count_done(&TaskList::new()), 0);
    let list = list_of(&[(1, "a", true), (2, "b", false), (3, "c", true)]);
    assert_eq!(count_done(&list), 2);
}

#[test]
fn error_messages() {
    assert_eq!(MarkError::AlreadyDone.message(), "Task is already marked as done.");
    assert_eq!(MarkError::NotFound.message(), "Task not found.");
}
