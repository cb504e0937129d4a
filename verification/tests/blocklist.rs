use work_recorder::activity::{contains, ActivityMonitor};

fn default_monitor() -> ActivityMonitor {
    ActivityMonitor::new(String::from("activity.jsonl"))
}

fn chars(text: &str) -> Vec<char> {
    text.chars().collect()
}

#[test]
fn spotify_is_blocked_whatever_its_case() {
    assert!(default_monitor().is_blocked("Spotify", ""));
}

#[test]
fn editor_with_project_title_is_not_blocked() {
    assert!(!default_monitor().is_blocked("VSCode", "main.rs — myproj"));
}

#[test]
fn blocked_app_is_found_inside_a_longer_name() {
    let monitor = default_monitor();
    assert!(monitor.is_blocked("com.SLACK.desktop", "general"));
    assert!(monitor.is_blocked("Discord Canary", ""));
    assert!(monitor.is_blocked("Timeline", ""));
}

#[test]
fn blocked_title_blocks_any_app() {
    let monitor = default_monitor();
    assert!(monitor.is_blocked("Firefox", "New INCOGNITO tab"));
    assert!(monitor.is_blocked("Notes", "My Secret plan"));
    assert!(monitor.is_blocked("Firefox", "Private Browsing"));
}

#[test]
fn app_list_is_not_matched_against_titles() {
    let monitor = default_monitor();
    assert!(!monitor.is_blocked("Firefox", "Spotify web player"));
    assert!(!monitor.is_blocked("private", "inbox"));
}

#[test]
fn empty_names_are_not_blocked() {
    assert!(!default_monitor().is_blocked("", ""));
}

#[test]
fn custom_blocklist_replaces_the_default() {
    let monitor = ActivityMonitor::with_blocklist(
        String::from("log"),
        vec![String::from("bank")],
        vec![String::from("salary")],
    );
    assert!(monitor.is_blocked("MyBank", ""));
    assert!(monitor.is_blocked("Sheets", "Salary 2024"));
    assert!(!monitor.is_blocked("Spotify", ""));
}

#[test]
fn empty_blocklist_blocks_nothing() {
    let monitor = ActivityMonitor::with_blocklist(String::from("log"), vec![], vec![]);
    assert!(!monitor.is_blocked("Spotify", "private"));
}

#[test]
fn blocklist_on_lower_case_names_is_case_sensitive() {
    let monitor = default_monitor();
    assert!(monitor.matches_blocklist("spotify", ""));
    assert!(!monitor.matches_blocklist("SPOTIFY", ""));
    assert!(monitor.matches_blocklist("", "a secret"));
}

#[test]
fn lower_casing_follows_unicode() {
    let monitor = ActivityMonitor::with_blocklist(
        String::from("log"),
        vec![String::from("éditeur")],
        vec![],
    );
    assert!(monitor.is_blocked("ÉDITEUR de texte", ""));
}

#[test]
fn substring_search_finds_every_position() {
    assert!(contains(&chars("hello"), &chars("")));
    assert!(contains(&chars(""), &chars("")));
    assert!(contains(&chars("hello"), &chars("he")));
    assert!(contains(&chars("hello"), &chars("ell")));
    assert!(contains(&chars("hello"), &chars("lo")));
    assert!(contains(&chars("hello"), &chars("hello")));
    assert!(!contains(&chars("hello"), &chars("helloo")));
    assert!(!contains(&chars("hello"), &chars("hl")));
    assert!(!contains(&chars(""), &chars("a")));
    assert!(contains(&chars("aab"), &chars("ab")));
}

#[test]
fn log_path_is_kept() {
    let monitor = ActivityMonitor::new(String::from("/tmp/out/monitor_1.jsonl"));
    assert_eq!(monitor.log_file_path(), "/tmp/out/monitor_1.jsonl");
    assert!(monitor.current_log().is_none());
}
