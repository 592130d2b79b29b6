use app_launcher::command::is_not_metavar;
use app_launcher::command::split_tokens;
use app_launcher::dispatch::build_argv;
use app_launcher::dispatch::dispatch;
use app_launcher::dispatch::Dispatch;
use app_launcher::entries::find_entry;
use app_launcher::entries::Entry;
use app_launcher::entries::EntryKind;

fn application(name: &str, command: Option<&str>) -> Entry {
    Entry {
        name: name.to_string(),
        kind: EntryKind::Application { command: command.map(|c| c.to_string()) },
    }
}

#[test]
fn chosen_entry_launches_with_placeholder_stripped() {
    let entries = vec![
        application("Firefox", Some("firefox %u")),
        application("Terminal", Some("xterm")),
    ];
    match dispatch(&entries, "Firefox") {
        Dispatch::Launch { program, args } => {
            assert_eq!(program, "firefox");
            assert_eq!(args, Vec::<String>::new());
        }
        _ => panic!("expected a launch"),
    }
}

#[test]
fn empty_choice_runs_nothing() {
    let entries = vec![
        application("Firefox", Some("firefox %u")),
        application("Terminal", Some("xterm")),
    ];
    assert!(matches!(dispatch(&entries, ""), Dispatch::NoSelection));
}

#[test]
fn unknown_choice_runs_nothing() {
    let entries = vec![
        application("Firefox", Some("firefox %u")),
        application("Terminal", Some("xterm")),
    ];
    assert!(matches!(dispatch(&entries, "Emacs"), Dispatch::NoSelection));
}

#[test]
fn placeholders_are_exactly_two_characters() {
    match build_argv("vlc --fullscreen %f") {
        Some((program, args)) => {
            assert_eq!(program, "vlc");
            assert_eq!(args, vec!["--fullscreen".to_string()]);
        }
        None => panic!("expected an argv"),
    }
    match build_argv("play %foo %f") {
        Some((program, args)) => {
            assert_eq!(program, "play");
            assert_eq!(args, vec!["%foo".to_string()]);
        }
        None => panic!("expected an argv"),
    }
}

#[test]
fn empty_command_has_no_argv() {
    assert!(build_argv("").is_none());
    assert!(build_argv("   \t ").is_none());
}

#[test]
fn metavar_test_keeps_longer_percent_tokens() {
    assert!(!is_not_metavar(&"%u"));
    assert!(!is_not_metavar(&"%f"));
    assert!(is_not_metavar(&"%foo"));
    assert!(is_not_metavar(&"%"));
    assert!(is_not_metavar(&"uu"));
}

#[test]
fn duplicate_names_resolve_to_the_first_entry() {
    let entries = vec![
        application("Run", Some("first")),
        application("Run", Some("second")),
    ];
    assert_eq!(find_entry(&entries, "Run"), Some(0));
    match dispatch(&entries, "Run") {
        Dispatch::Launch { program, args } => {
            assert_eq!(program, "first");
            assert!(args.is_empty());
        }
        _ => panic!("expected a launch"),
    }
}

#[test]
fn missing_command_is_a_distinct_failure() {
    let entries = vec![application("Broken", None)];
    assert!(matches!(dispatch(&entries, "Broken"), Dispatch::MissingCommand));
}

#[test]
fn blank_command_is_a_missing_command() {
    let entries = vec![application("Blank", Some("  "))];
    assert!(matches!(dispatch(&entries, "Blank"), Dispatch::MissingCommand));
}

#[test]
fn matched_non_application_runs_nothing() {
    let entries = vec![Entry { name: "Folder".to_string(), kind: EntryKind::Other }];
    assert!(matches!(dispatch(&entries, "Folder"), Dispatch::NoSelection));
}

#[test]
fn tokens_split_on_whitespace_runs() {
    assert_eq!(
        split_tokens("  vlc \t --fullscreen  %f\n"),
        vec!["vlc".to_string(), "--fullscreen".to_string(), "%f".to_string()]
    );
    assert_eq!(split_tokens(""), Vec::<String>::new());
}
