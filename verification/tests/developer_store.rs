use vertex_ai::developer::{DeveloperMode, DeveloperTask};
use vertex_ai::devstore::DeveloperDocument;
use vertex_ai::sandbox::WorkspaceBook;

fn task(id: u128, now: i64) -> DeveloperTask {
    DeveloperTask::new_at(id, 1, "request".to_owned(), DeveloperMode::ReadOnly, "qwen3:8b".to_owned(), now)
}

#[test]
fn tasks_replace_by_id_and_list_newest_first() {
    let mut document = DeveloperDocument::new();
    document.save_task(task(3, 10));
    document.save_task(task(1, 30));
    document.save_task(task(2, 30));
    let mut updated = task(3, 10);
    updated.updated_at = 40;
    document.save_task(updated);
    assert_eq!(document.load_task(3).unwrap().updated_at, 40);
    assert!(document.load_task(9).is_none());
    let ids: Vec<u128> = document.list_tasks(10).iter().map(|t| t.id).collect();
    assert_eq!(ids, vec![3, 1, 2]);
    assert_eq!(document.list_tasks(2).len(), 2);
    assert!(document.list_tasks(0).is_empty());
}

#[test]
fn events_replace_the_same_sequence_number() {
    let mut document = DeveloperDocument::new();
    document.append_event(1, 1, "started", "{}".to_owned()).unwrap();
    document.append_event(1, 2, "tool", "{\"a\":1}".to_owned()).unwrap();
    document.append_event(2, 1, "started", "{}".to_owned()).unwrap();
    document.append_event(1, 2, "tool", "{\"a\":2}".to_owned()).unwrap();
    let events = document.events();
    assert_eq!(events.len(), 3);
    assert_eq!(events[2].payload, "{\"a\":2}");
    assert_eq!((events[0].task_id, events[0].sequence), (1, 1));
    assert_eq!((events[1].task_id, events[1].sequence), (2, 1));
}

#[test]
fn saved_workspaces_replace_by_id() {
    let mut book = WorkspaceBook::new();
    let first = book.register_at("repo", "/r", false, None, 5, 1).unwrap();
    let mut document = DeveloperDocument::new();
    document.save_workspace(first.clone());
    let mut renamed = first;
    renamed.name = "renamed".to_owned();
    document.save_workspace(renamed);
    assert_eq!(document.workspaces().len(), 1);
    assert_eq!(document.workspaces()[0].name, "renamed");
}
