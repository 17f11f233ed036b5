use ticketr::board::{App, WebConfig};
use ticketr::clock::timestamp_of_reading;
use ticketr::deps::cascade_unblock;
use ticketr::document::{render_document, split_document};
use ticketr::ident::{hex_chars, id_from_parts, new_id, parent_dir_name, prefix_for};
use ticketr::legacy::parse_legacy_ticket;
use ticketr::listing::{find_text, search, sort_newest_first};
use ticketr::resolve::StoreListing;
use ticketr::status::Status;
use ticketr::store::{
    check_tickets_locations, document_format, migration_source, DocumentFormat, LegacyDocument,
    StoreAction, TicketManager, TicketUpdate,
};
use ticketr::ticket::{CreateOptions, Note, Ticket, TicketError, Timestamp};

fn ticket(id: &str, title: &str, status: Status, created: i64) -> Ticket {
    Ticket {
        id: id.to_string(),
        title: title.to_string(),
        status,
        deps: Vec::new(),
        links: Vec::new(),
        created: Timestamp { millis: created },
        issue_type: "task".to_string(),
        priority: 2,
        description: None,
        design: None,
        acceptance: None,
        assignee: None,
        external_ref: None,
        parent: None,
        project: None,
        category: None,
        notes: Vec::new(),
    }
}

fn manager() -> TicketManager {
    TicketManager::new("/work/ticket-r/.tickets".to_string(), None, None)
}

fn options() -> CreateOptions {
    CreateOptions {
        issue_type: "task".to_string(),
        priority: 2,
        description: Some("Test description".to_string()),
        design: None,
        acceptance: None,
        assignee: None,
        external_ref: None,
        parent: None,
    }
}

fn is_id(s: &str) -> bool {
    match s.split_once('-') {
        Some((p, h)) => {
            !p.is_empty()
                && p.chars().all(|c| c.is_ascii_lowercase())
                && !h.is_empty()
                && h.chars().all(|c| c.is_ascii_digit() || ('a'..='f').contains(&c))
        }
        None => false,
    }
}

// The original checked that the `tkr` binary had been built. This crate builds
// the library, and the test checks the first thing the binary asks of it: where
// the status directories are.
#[test]
fn basic_integration_test_binary_exists() {
    let m = manager();
    assert_eq!(m.get_status_dir("open"), "/work/ticket-r/.tickets/open");
}

// As above: the library the binary is built on places ticket files.
#[test]
fn comprehensive_integration_test_binary_exists() {
    let m = manager();
    assert_eq!(m.ticket_file(Status::Closed, "tr-1a2b"), "/work/ticket-r/.tickets/closed/tr-1a2b.md");
}

#[test]
fn status_names_round_trip() {
    for s in Status::all() {
        assert_eq!(Status::parse(&s.as_str()), Some(s));
    }
    assert_eq!(Status::all().len(), 7);
    assert_eq!(Status::InProgress.as_str(), "in_progress");
    assert_eq!(Status::parse("done"), None);
    assert_eq!(Status::parse("Open"), None);
}

#[test]
fn validate_status_accepts_the_seven() {
    let m = manager();
    assert!(m.validate_status("icebox").is_ok());
    assert_eq!(m.validate_status("finished"), Err(TicketError::InvalidStatus("finished".to_string())));
}

#[test]
fn create_fix_login_bug_scenario() {
    let m = manager();
    let t = m.create_ticket("Fix login bug".to_string(), options()).unwrap();
    assert!(is_id(&t.id), "{}", t.id);
    assert!(t.id.starts_with("tr-"));
    assert_eq!(t.status, Status::Open);
    assert_eq!(t.title, "Fix login bug");
    assert_eq!(m.ticket_file(t.status, &t.id), format!("/work/ticket-r/.tickets/open/{}.md", t.id));
    let all = vec![t.clone()];
    let acts = m.move_ticket_to_status(t.clone(), "closed", all).unwrap();
    assert_eq!(acts.len(), 2);
    match &acts[0] {
        StoreAction::Write(w) => {
            assert_eq!(w.status, Status::Closed);
            assert_eq!(w.id, t.id);
        }
        _ => panic!("expected a write"),
    }
    match &acts[1] {
        StoreAction::Remove(s, id) => {
            assert_eq!(*s, Status::Open);
            assert_eq!(id, &t.id);
        }
        _ => panic!("expected a removal"),
    }
}

#[test]
fn id_from_parts_formats_prefix_and_suffix() {
    assert_eq!(id_from_parts("/home/u/my-cool_repo/.tickets", 123456789, "ab12"), "mcr-1a85ab12");
    assert_eq!(id_from_parts(".tickets", 0, "0000"), "u-00000");
    assert_eq!(id_from_parts("/x/--/.tickets", 31, "ffff"), "---1fffff");
}

#[test]
fn prefix_uses_initials_or_first_three() {
    assert_eq!(prefix_for("my-repo_x").iter().collect::<String>(), "mrx");
    assert_eq!(prefix_for("project").iter().collect::<String>(), "p");
    assert_eq!(prefix_for("-_").iter().collect::<String>(), "-_");
    assert_eq!(prefix_for("").iter().collect::<String>(), "");
}

#[test]
fn parent_name_of_tickets_dir() {
    assert_eq!(parent_dir_name("/a/b/.tickets").iter().collect::<String>(), "b");
    assert_eq!(parent_dir_name("/a/b/.tickets/").iter().collect::<String>(), "b");
    assert_eq!(parent_dir_name(".tickets").iter().collect::<String>(), "unk");
    assert_eq!(parent_dir_name("a/b/./.tickets").iter().collect::<String>(), "b");
    assert_eq!(parent_dir_name("./x/.tickets").iter().collect::<String>(), "x");
    assert_eq!(parent_dir_name("../.tickets").iter().collect::<String>(), "unk");
    assert_eq!(parent_dir_name("a/.tickets/..").iter().collect::<String>(), ".tickets");
}

#[test]
fn hex_text_values() {
    assert_eq!(hex_chars(0).iter().collect::<String>(), "0");
    assert_eq!(hex_chars(255).iter().collect::<String>(), "ff");
    assert_eq!(hex_chars(9999).iter().collect::<String>(), "270f");
}

#[test]
fn new_id_has_hex_suffix() {
    let id = new_id("/srv/alpha-beta/.tickets").unwrap();
    let (p, h) = id.split_once('-').unwrap();
    assert_eq!(p, "ab");
    assert!(h.len() >= 5 && h.len() <= 8);
    assert!(h.chars().all(|c| c.is_ascii_digit() || ('a'..='f').contains(&c)));
}

#[test]
fn dependency_add_then_remove_restores() {
    let m = manager();
    let mut t = ticket("a-1", "A", Status::Open, 1);
    t.deps = vec!["x-1".to_string(), "y-2".to_string()];
    let before = t.deps.clone();
    assert!(m.add_dependency(&mut t, "z-3"));
    assert_eq!(t.deps, vec!["x-1", "y-2", "z-3"]);
    assert!(m.remove_dependency(&mut t, "z-3"));
    assert_eq!(t.deps, before);
}

#[test]
fn dependency_add_existing_is_noop_and_remove_missing_reports() {
    let m = manager();
    let mut t = ticket("a-1", "A", Status::Open, 1);
    t.deps = vec!["x-1".to_string(), "y-2".to_string(), "x-1".to_string()];
    assert!(!m.add_dependency(&mut t, "y-2"));
    assert_eq!(t.deps.len(), 3);
    assert!(!m.remove_dependency(&mut t, "q-9"));
    assert!(m.remove_dependency(&mut t, "x-1"));
    assert_eq!(t.deps, vec!["y-2", "x-1"]);
}

#[test]
fn closing_unblocks_dependents() {
    let m = manager();
    let a = ticket("t-a", "A", Status::Open, 1);
    let mut b = ticket("t-b", "B", Status::Blocked, 2);
    b.deps = vec!["t-a".to_string()];
    let acts = m.move_ticket_to_status(a.clone(), "closed", vec![a.clone(), b.clone()]).unwrap();
    assert_eq!(acts.len(), 4);
    match &acts[0] {
        StoreAction::Write(w) => {
            assert_eq!(w.id, "t-b");
            assert_eq!(w.status, Status::Ready);
            assert!(w.deps.is_empty());
        }
        _ => panic!("expected a write"),
    }
    assert!(matches!(&acts[1], StoreAction::Remove(Status::Blocked, id) if id == "t-b"));
    assert!(matches!(&acts[2], StoreAction::Write(w) if w.id == "t-a" && w.status == Status::Closed));
    assert!(matches!(&acts[3], StoreAction::Remove(Status::Open, id) if id == "t-a"));
}

#[test]
fn cascade_skips_unblocked_and_keeps_other_deps() {
    let mut b = ticket("t-b", "B", Status::Blocked, 2);
    b.deps = vec!["t-a".to_string(), "t-c".to_string(), "t-a".to_string()];
    let mut c = ticket("t-c", "C", Status::Open, 3);
    c.deps = vec!["t-a".to_string()];
    let out = cascade_unblock("t-a", vec![b, c]);
    assert_eq!(out.len(), 1);
    assert_eq!(out[0].id, "t-b");
    assert_eq!(out[0].deps, vec!["t-c"]);
    assert_eq!(out[0].status, Status::Ready);
}

#[test]
fn transition_to_same_status_changes_nothing() {
    let m = manager();
    let t = ticket("t-a", "A", Status::InProgress, 1);
    let acts = m.move_ticket_to_status(t.clone(), "in_progress", vec![t]).unwrap();
    assert!(acts.is_empty());
}

#[test]
fn transition_to_unknown_status_fails() {
    let m = manager();
    let t = ticket("t-a", "A", Status::Open, 1);
    assert!(matches!(
        m.move_ticket_to_status(t, "done", Vec::new()),
        Err(TicketError::InvalidStatus(_))
    ));
}

#[test]
fn transition_other_than_close_runs_no_cascade() {
    let m = manager();
    let a = ticket("t-a", "A", Status::Open, 1);
    let mut b = ticket("t-b", "B", Status::Blocked, 2);
    b.deps = vec!["t-a".to_string()];
    let acts = m.move_ticket_to_status(a.clone(), "icebox", vec![a, b]).unwrap();
    assert_eq!(acts.len(), 2);
    assert!(matches!(&acts[0], StoreAction::Write(w) if w.status == Status::Icebox));
}

fn listing() -> StoreListing {
    let mut dirs: Vec<Vec<String>> = vec![Vec::new(); 7];
    dirs[0] = vec!["tk-12ab".to_string(), "tk-99ff".to_string()];
    dirs[2] = vec!["tk-1".to_string(), "zz-4".to_string()];
    dirs[4] = vec!["rr-77".to_string()];
    StoreListing { dirs }
}

#[test]
fn resolve_exact_before_prefix() {
    let l = listing();
    assert_eq!(l.resolve("tk-1", None), Some((Status::Open, "tk-12ab".to_string())));
    assert_eq!(l.resolve("tk-1", Some(Status::Closed)), Some((Status::Closed, "tk-1".to_string())));
    assert_eq!(l.resolve("tk-9", None), Some((Status::Open, "tk-99ff".to_string())));
}

#[test]
fn resolve_unique_prefix_matches_full_id() {
    let l = listing();
    let full = l.resolve("rr-77", None);
    assert_eq!(full, Some((Status::Ready, "rr-77".to_string())));
    assert_eq!(l.resolve("rr", None), full);
    assert_eq!(l.resolve("rr-7", Some(Status::Open)), full);
    assert_eq!(l.resolve("zz", Some(Status::Closed)), Some((Status::Closed, "zz-4".to_string())));
    assert_eq!(l.resolve("nope", None), None);
}

#[test]
fn list_orders_newest_first_stably() {
    let m = manager();
    let ts = vec![
        ticket("a", "A", Status::Open, 10),
        ticket("b", "B", Status::Open, 30),
        ticket("c", "C", Status::Closed, 10),
        ticket("d", "D", Status::Ready, 20),
    ];
    let ids: Vec<String> = m.list_tickets(ts).into_iter().map(|t| t.id).collect();
    assert_eq!(ids, vec!["b", "d", "a", "c"]);
    assert!(sort_newest_first(Vec::new()).is_empty());
}

#[test]
fn search_is_case_insensitive_over_title_description_and_id() {
    let m = manager();
    let mut a = ticket("web-1", "Fix LOGIN bug", Status::Open, 1);
    a.description = Some("Users cannot sign in".to_string());
    let b = ticket("api-2", "Rate limits", Status::Open, 2);
    let c = ticket("LOGIN-3", "Other", Status::Open, 3);
    let found: Vec<String> = m
        .search_tickets(vec![a.clone(), b.clone(), c.clone()], "login")
        .into_iter()
        .map(|t| t.id)
        .collect();
    assert_eq!(found, vec!["LOGIN-3", "web-1"]);
    let by_desc = search(vec![a, b, c], "SIGN IN");
    assert_eq!(by_desc.len(), 1);
    assert_eq!(by_desc[0].id, "web-1");
}

#[test]
fn find_text_edges() {
    assert!(find_text("abc", ""));
    assert!(find_text("abc", "bc"));
    assert!(!find_text("ab", "abc"));
    assert!(!find_text("", "a"));
}

#[test]
fn render_then_split_gives_metadata() {
    let mut t = ticket("t-1", "Title here", Status::Open, 0);
    t.description = Some("Body text".to_string());
    t.notes = vec![Note { timestamp: Timestamp { millis: 1704067200000 }, content: "first".to_string() }];
    let doc = render_document("id: t-1\nstatus: open\n", &t);
    assert_eq!(
        doc,
        "---\nid: t-1\nstatus: open\n---\n\n# Title here\n\n\nBody text\n\n## Notes\n\n**2024-01-01 00:00:00**: first"
    );
    assert_eq!(split_document(&doc).unwrap(), "id: t-1\nstatus: open");
}

#[test]
fn render_without_description_or_notes() {
    let t = ticket("t-1", "Bare", Status::Open, 0);
    assert_eq!(render_document("  a: 1  ", &t), "---\na: 1\n---\n\n# Bare\n");
}

#[test]
fn split_needs_two_separators() {
    assert!(matches!(split_document("no block"), Err(TicketError::FormatError(_))));
    assert!(matches!(split_document("---\nid: x\n"), Err(TicketError::FormatError(_))));
    assert_eq!(split_document("pre\n---\n a \n---\nrest").unwrap(), "a");
    assert!(matches!(split_document("pre---\n a \n---rest"), Err(TicketError::FormatError(_))));
    assert_eq!(split_document("---\ntitle: a---b\n---\n").unwrap(), "title: a---b");
}

#[test]
fn legacy_document_is_parsed() {
    let text = "# Fix the build\nstatus: In_Progress\nSome detail\nmore detail\nNotes:\n**2024-03-05 10:20:30**: looked at it\nnot a note\n";
    let t = parse_legacy_ticket(text, "old-1", Some("p".to_string()), None, Timestamp { millis: 5 }).unwrap();
    assert_eq!(t.id, "old-1");
    assert_eq!(t.title, "Fix the build");
    assert_eq!(t.status, Status::InProgress);
    assert_eq!(t.description.as_deref(), Some("Some detail\nmore detail"));
    assert_eq!(t.notes.len(), 1);
    assert_eq!(t.notes[0].content, "looked at it");
    assert_eq!(t.notes[0].timestamp.millis, 1709634030000);
    assert_eq!(t.issue_type, "task");
    assert_eq!(t.priority, 2);
    assert_eq!(t.created.millis, 5);
    assert_eq!(t.project.as_deref(), Some("p"));
}

#[test]
fn legacy_description_key_and_untitled() {
    let t = parse_legacy_ticket("\n\n", "e", None, None, Timestamp { millis: 0 }).unwrap();
    assert_eq!(t.title, "Untitled");
    assert_eq!(t.status, Status::Open);
    let t = parse_legacy_ticket("T\nDescription: first\nsecond", "e", None, None, Timestamp { millis: 0 }).unwrap();
    assert_eq!(t.description.as_deref(), Some("first\nsecond"));
}

#[test]
fn legacy_bad_status_is_refused() {
    let r = parse_legacy_ticket("T\nStatus: finished", "e", None, None, Timestamp { millis: 0 });
    assert!(matches!(r, Err(TicketError::InvalidStatus(_))));
}

#[test]
fn migration_imports_only_legacy_documents() {
    let m = TicketManager::new("/r/.tickets".to_string(), None, Some("c".to_string()));
    let docs = vec![
        LegacyDocument { stem: "a".to_string(), content: "---\nid: a\n---\n".to_string() },
        LegacyDocument { stem: "b".to_string(), content: "Title B\nStatus: blocked".to_string() },
    ];
    let out = m.migrate_tickets("auto", &docs, Timestamp { millis: 1 }).unwrap();
    assert_eq!(out.len(), 1);
    assert_eq!(out[0].id, "b");
    assert_eq!(out[0].status, Status::Blocked);
    assert_eq!(out[0].category.as_deref(), Some("c"));
    assert_eq!(
        m.migrate_tickets("beads", &docs, Timestamp { millis: 1 }).err(),
        Some(TicketError::MigrationUnsupported("beads".to_string()))
    );
    let bad = vec![LegacyDocument { stem: "c".to_string(), content: "T\nStatus: gone".to_string() }];
    assert!(matches!(m.migrate_tickets("bash-tk", &bad, Timestamp { millis: 1 }), Err(TicketError::InvalidStatus(_))));
    assert!(migration_source("bash-tk").is_ok());
    assert_eq!(document_format("---x"), DocumentFormat::Current);
    assert_eq!(document_format("# t"), DocumentFormat::Legacy);
}

#[test]
fn update_applies_given_fields() {
    let m = manager();
    let t = ticket("t-1", "Old", Status::Open, 0);
    let u = TicketUpdate {
        status: Some("ready".to_string()),
        title: None,
        description: Some("d".to_string()),
        assignee: None,
        priority: Some(1),
    };
    let r = m.apply_update(t.clone(), u).unwrap();
    assert_eq!(r.status, Status::Ready);
    assert_eq!(r.title, "Old");
    assert_eq!(r.description.as_deref(), Some("d"));
    assert_eq!(r.priority, 1);
    let bad = TicketUpdate { status: Some("gone".to_string()), title: None, description: None, assignee: None, priority: None };
    assert!(matches!(m.apply_update(t, bad), Err(TicketError::InvalidStatus(_))));
}

#[test]
fn add_note_appends() {
    let m = manager();
    let mut t = ticket("t-1", "N", Status::Open, 0);
    t.links = vec!["t-2".to_string()];
    t.project = Some("p".to_string());
    m.add_note(&mut t, "one".to_string(), Timestamp { millis: 7 });
    m.add_note(&mut t, "two".to_string(), Timestamp { millis: 8 });
    assert_eq!(t.notes.len(), 2);
    assert_eq!(t.notes[1].content, "two");
    assert_eq!(t.links, vec!["t-2"]);
    assert_eq!(t.project.as_deref(), Some("p"));
}

#[test]
fn store_location_choice() {
    assert_eq!(check_tickets_locations("/r", &vec![false, true, false, false]), Some("/r/tickets".to_string()));
    assert_eq!(check_tickets_locations("/r", &vec![false, true, true, false]), Some("/r/tickets".to_string()));
    assert_eq!(check_tickets_locations("/r", &vec![true, true, true, true]), Some("/r/.tickets".to_string()));
    assert_eq!(check_tickets_locations("/r", &vec![false, false, false, true]), Some("/r/ticket".to_string()));
    assert_eq!(check_tickets_locations("/r", &vec![false, false, false, false]), None);
}

#[test]
fn viewer_selection_wraps() {
    let mut app = App::new();
    app.next();
    assert_eq!(app.selected_ticket, 0);
    app.update_tickets(vec![ticket("a", "A", Status::Open, 1), ticket("b", "B", Status::Open, 2)]);
    app.previous();
    assert_eq!(app.selected_ticket, 1);
    app.next();
    assert_eq!(app.selected_ticket, 0);
    app.selected_ticket = 1;
    app.update_tickets(vec![ticket("a", "A", Status::Open, 1)]);
    assert_eq!(app.selected_ticket, 0);
}

#[test]
fn web_config_defaults() {
    let c = WebConfig::default();
    assert_eq!(c.host, "127.0.0.1");
    assert_eq!(c.port, 8080);
    assert!(c.default_assignee.is_none());
}

#[test]
fn framing_ignores_separators_in_the_body() {
    let mut t = ticket("t-9", "a --- b", Status::Open, 0);
    t.description = Some("---\nmore ---".to_string());
    let doc = render_document("\n id: t-9\n", &t);
    assert_eq!(split_document(&doc).unwrap(), "id: t-9");
}

#[test]
fn note_time_out_of_range_is_marked_unknown() {
    let mut t = ticket("t-1", "T", Status::Open, 0);
    t.notes = vec![Note { timestamp: Timestamp { millis: i64::MAX }, content: "x".to_string() }];
    let doc = render_document("a: 1", &t);
    assert!(doc.ends_with("\n**????-??-?? ??:??:??**: x"), "{}", doc);
}

#[test]
fn created_time_and_id_share_the_clock_reading() {
    let m = manager();
    let t = m.create_ticket("Clocked".to_string(), options()).unwrap();
    assert!(t.created.millis > 0);
    let suffix = format!("{:x}", t.created.millis % 10000);
    assert!(t.id.starts_with(&format!("tr-{}", suffix)), "{} {}", t.id, suffix);
    assert_eq!(t.id.len(), 3 + suffix.len() + 4);
}

#[test]
fn legacy_keys_are_read_after_the_title_line() {
    let text = "\n\n# Late title\nStatus: ready\nbody line";
    let t = parse_legacy_ticket(text, "l", None, None, Timestamp { millis: 0 }).unwrap();
    assert_eq!(t.title, "Late title");
    assert_eq!(t.status, Status::Ready);
    assert_eq!(t.description.as_deref(), Some("body line"));
}

#[test]
fn unicode_whitespace_is_trimmed() {
    let t = parse_legacy_ticket("# Wide\u{A0}\n\u{3000}Description:\u{2003}x\u{2029}", "w", None, None, Timestamp { millis: 0 }).unwrap();
    assert_eq!(t.title, "Wide");
    assert_eq!(t.description.as_deref(), Some("x"));
}

#[test]
fn clock_readings_map_to_timestamps() {
    assert_eq!(timestamp_of_reading(Some(1234)), Ok(Timestamp { millis: 1234 }));
    assert_eq!(timestamp_of_reading(Some(9223372036854775807)), Ok(Timestamp { millis: i64::MAX }));
    assert_eq!(timestamp_of_reading(Some(9223372036854775808)), Err(TicketError::ClockError));
    assert_eq!(timestamp_of_reading(None), Err(TicketError::ClockError));
}
