use rtask::model::{display_option_string, display_vec_string, get_tasks_file, AppConfig};
use rtask::text::{eq_str, join_with, parse_tags, str_contains};

#[test]
fn eq_str_compares_characters() {
    assert!(eq_str("done", "done"));
    assert!(!eq_str("done", "pending"));
    assert!(!eq_str("done", "Done"));
    assert!(eq_str("", ""));
}

#[test]
fn str_contains_finds_substrings() {
    assert!(str_contains("homework", "work"));
    assert!(str_contains("work", "work"));
    assert!(str_contains("anything", ""));
    assert!(!str_contains("", "a"));
    assert!(!str_contains("work", "homework"));
    assert!(!str_contains("homework", "Work"));
}

#[test]
fn parse_tags_splits_trims_and_drops_empty() {
    assert_eq!(parse_tags("work,home"), vec!["work", "home"]);
    assert_eq!(parse_tags(" work , , home "), vec!["work", "home"]);
    assert_eq!(parse_tags(""), Vec::<String>::new());
    assert_eq!(parse_tags(",,,"), Vec::<String>::new());
    assert_eq!(parse_tags("one"), vec!["one"]);
}

#[test]
fn join_with_places_separator_between_parts() {
    let v = vec!["a".to_string(), "b".to_string(), "c".to_string()];
    assert_eq!(join_with(&v, ", "), "a, b, c");
    let one = vec!["a".to_string()];
    assert_eq!(join_with(&one, ", "), "a");
    let empty: Vec<String> = Vec::new();
    assert_eq!(join_with(&empty, ", "), "");
}

#[test]
fn display_helpers_render_dashes_for_nothing() {
    assert_eq!(display_option_string(&None), "-");
    assert_eq!(display_option_string(&Some("2024-05-05".to_string())), "2024-05-05");
    assert_eq!(display_vec_string(&Vec::new()), "-");
    assert_eq!(
        display_vec_string(&vec!["work".to_string(), "home".to_string()]),
        "work, home"
    );
}

#[test]
fn default_config_points_under_home() {
    let c = AppConfig::default_for_home("/home/someone");
    assert_eq!(c.tasks_dir, "/home/someone/.rtasks");
    assert_eq!(c.user_name, "User");
    assert_eq!(c.default_priority, "medium");
}

#[test]
fn tasks_file_is_inside_tasks_dir() {
    let c = AppConfig {
        tasks_dir: "/tmp/somewhere".to_string(),
        user_name: "User".to_string(),
        default_priority: "low".to_string(),
    };
    assert_eq!(get_tasks_file(&c), "/tmp/somewhere/tasks.json");
}

