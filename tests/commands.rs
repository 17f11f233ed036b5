use ticketr::status::Status;
use ticketr::store::{StoreAction, TicketManager};
use ticketr::ticket::{CreateOptions, Ticket, Timestamp};

fn options(description: Option<&str>) -> CreateOptions {
    CreateOptions {
        issue_type: "task".to_string(),
        priority: 2,
        description: description.map(|d| d.to_string()),
        design: None,
        acceptance: None,
        assignee: None,
        external_ref: None,
        parent: None,
    }
}

fn manager() -> TicketManager {
    TicketManager::new("/tmp/work/.tickets".to_string(), None, None)
}

fn written(actions: &[StoreAction]) -> Vec<Ticket> {
    actions
        .iter()
        .filter_map(|a| match a {
            StoreAction::Write(t) => Some(t.clone()),
            _ => None,
        })
        .collect()
}

fn moved(m: &TicketManager, t: &Ticket, status: &str) -> Ticket {
    let actions = m.move_ticket_to_status(t.clone(), status, vec![t.clone()]).unwrap();
    written(&actions).pop().unwrap()
}

#[test]
fn cli_tests_test_create_ticket() {
    let m = manager();
    let t = m.create_ticket("Test ticket".to_string(), options(Some("Test description"))).unwrap();
    assert_eq!(t.title, "Test ticket");
    assert_eq!(t.description.as_deref(), Some("Test description"));
    assert_eq!(t.status.as_str(), "open");
    assert!(m.ticket_file(t.status, &t.id).starts_with("/tmp/work/.tickets/open/"));
}

#[test]
fn cli_tests_test_create_ticket_with_project_category() {
    let m = TicketManager::new(
        "/tmp/work/.tickets".to_string(),
        Some("test-project".to_string()),
        Some("test-category".to_string()),
    );
    let t = m.create_ticket("Test ticket with tags".to_string(), options(None)).unwrap();
    assert_eq!(t.project.as_deref(), Some("test-project"));
    assert_eq!(t.category.as_deref(), Some("test-category"));
}

#[test]
fn cli_tests_test_ticket_status_update() {
    let m = manager();
    let t = m.create_ticket("Status test ticket".to_string(), options(None)).unwrap();
    let u = moved(&m, &t, "in_progress");
    assert_eq!(u.status.as_str(), "in_progress");
}

#[test]
fn cli_tests_test_add_note() {
    let m = manager();
    let mut t = m.create_ticket("Note test ticket".to_string(), options(None)).unwrap();
    m.add_note(&mut t, "Test note content".to_string(), Timestamp { millis: 0 });
    let doc = ticketr::document::render_document("id: x", &t);
    assert!(doc.contains("## Notes"));
    assert!(doc.contains("Test note content"));
}

#[test]
fn cli_tests_test_dependency_management() {
    let m = manager();
    let parent = m.create_ticket("Parent ticket".to_string(), options(None)).unwrap();
    let mut child = m.create_ticket("Child ticket".to_string(), options(None)).unwrap();
    assert!(m.add_dependency(&mut child, &parent.id));
    assert_eq!(child.deps, vec![parent.id.clone()]);
    assert!(m.remove_dependency(&mut child, &parent.id));
    assert!(child.deps.is_empty());
}

#[test]
fn cli_tests_test_start_command() {
    let m = manager();
    let t = m.create_ticket("Test ticket for start".to_string(), options(None)).unwrap();
    assert_eq!(moved(&m, &t, "in_progress").status, Status::InProgress);
}

#[test]
fn cli_tests_test_close_command() {
    let m = manager();
    let t = m.create_ticket("Test ticket for close".to_string(), options(None)).unwrap();
    assert_eq!(moved(&m, &t, "closed").status, Status::Closed);
}

#[test]
fn test_reopen_command() {
    let m = manager();
    let t = m.create_ticket("Test ticket for reopen".to_string(), options(None)).unwrap();
    let closed = moved(&m, &t, "closed");
    assert_eq!(moved(&m, &closed, "open").status.as_str(), "open");
}

#[test]
fn test_status_command() {
    let m = manager();
    let t = m.create_ticket("Test ticket for status".to_string(), options(None)).unwrap();
    assert_eq!(moved(&m, &t, "blocked").status.as_str(), "blocked");
}

#[test]
fn comprehensive_integration_test_dependency_management() {
    let m = manager();
    let parent = m.create_ticket("Parent ticket".to_string(), options(None)).unwrap();
    let mut child = m.create_ticket("Child ticket".to_string(), options(None)).unwrap();
    assert!(m.add_dependency(&mut child, &parent.id));
    assert!(!m.add_dependency(&mut child, &parent.id));
    assert_eq!(child.deps.len(), 1);
}
