use app_launcher::entries::collect_entries;
use app_launcher::entries::has_desktop_extension;
use app_launcher::entries::Candidate;
use app_launcher::entries::Entry;
use app_launcher::entries::EntryKind;

fn application(name: &str, command: Option<&str>) -> Entry {
    Entry {
        name: name.to_string(),
        kind: EntryKind::Application { command: command.map(|c| c.to_string()) },
    }
}

fn other(name: &str) -> Entry {
    Entry { name: name.to_string(), kind: EntryKind::Other }
}

#[test]
fn mixed_candidates_yield_only_valid_applications_in_order() {
    let cands = vec![
        Candidate {
            name: "firefox.desktop".to_string(),
            parsed: Some(application("Firefox", Some("firefox %u"))),
        },
        Candidate { name: "broken.desktop".to_string(), parsed: None },
        Candidate {
            name: "folder.desktop".to_string(),
            parsed: Some(other("Some Folder")),
        },
        Candidate {
            name: "term.desktop".to_string(),
            parsed: Some(application("Terminal", Some("xterm"))),
        },
    ];
    let entries = collect_entries(cands);
    assert_eq!(entries.len(), 2);
    assert_eq!(entries[0].name, "Firefox");
    assert_eq!(entries[1].name, "Terminal");
}

#[test]
fn non_desktop_names_are_never_considered() {
    let cands = vec![
        Candidate {
            name: "notes.txt".to_string(),
            parsed: Some(application("Notes", Some("notes"))),
        },
        Candidate {
            name: "desktop".to_string(),
            parsed: Some(application("Bare", Some("bare"))),
        },
    ];
    let entries = collect_entries(cands);
    assert_eq!(entries.len(), 0);
}

#[test]
fn discovery_keeps_listing_order() {
    let cands = vec![
        Candidate {
            name: "b.desktop".to_string(),
            parsed: Some(application("B", Some("b"))),
        },
        Candidate {
            name: "a.desktop".to_string(),
            parsed: Some(application("A", Some("a"))),
        },
    ];
    let entries = collect_entries(cands);
    assert_eq!(entries[0].name, "B");
    assert_eq!(entries[1].name, "A");
}

#[test]
fn desktop_extension_is_matched_literally() {
    assert!(has_desktop_extension("firefox.desktop"));
    assert!(has_desktop_extension("a.b.desktop"));
    assert!(!has_desktop_extension("firefox.desktop.bak"));
    assert!(!has_desktop_extension("firefoxdesktop"));
    assert!(!has_desktop_extension(".desktop"));
    assert!(!has_desktop_extension(""));
}

#[test]
fn is_application_reports_the_classification() {
    assert!(application("X", None).is_application());
    assert!(!other("X").is_application());
}
