use aooff::popup::ranking::rank_matches;
use aooff::popup::{Key, PopupAction, PopupState, SuggestionItem};
use aooff::protocol::{App, ProjectDto};

fn project(name: &str, path: &str) -> ProjectDto {
    ProjectDto { name: name.to_string(), path: path.to_string() }
}

fn app(name: &str, path: &str) -> App {
    App { name: name.to_string(), path: path.to_string() }
}

fn sample() -> PopupState {
    PopupState::new(
        vec![project("aooff", "/home/u/projects/aooff"), project("notes", "/home/u/projects/notes")],
        vec![app("firefox", "/usr/bin/firefox"), app("ls", "/bin/ls"), app("fish", "/usr/bin/fish")],
    )
}

fn names(items: &[SuggestionItem]) -> Vec<String> {
    items.iter().map(|i| i.name().to_string()).collect()
}

#[test]
fn new_lists_projects_then_apps() {
    let s = sample();
    assert_eq!(s.query, "");
    assert_eq!(s.selected, 0);
    assert_eq!(names(&s.all_items), vec!["aooff", "notes", "firefox", "ls", "fish"]);
    assert_eq!(names(&s.filtered), names(&s.all_items));
    assert_eq!(s.all_items[0].tag(), "Project");
    assert_eq!(s.all_items[2].tag(), "App");
}

#[test]
fn rank_matches_orders_by_score_then_position() {
    let r = rank_matches(&vec![Some(5), None, Some(9), Some(5), Some(-1)]);
    assert_eq!(r, vec![2, 0, 3, 4]);
    assert_eq!(rank_matches(&vec![None, None]), Vec::<usize>::new());
    assert_eq!(rank_matches(&vec![]), Vec::<usize>::new());
}

#[test]
fn update_filter_keeps_matching_items() {
    let mut s = sample();
    s.query = "fi".to_string();
    s.selected = 2;
    s.update_filter();
    let shown = names(&s.filtered);
    assert!(shown.contains(&"firefox".to_string()));
    assert!(shown.contains(&"fish".to_string()));
    assert!(!shown.contains(&"ls".to_string()));
    assert!(!shown.contains(&"aooff".to_string()));
    assert_eq!(s.selected, 0);
    assert_eq!(s.all_items.len(), 5);
}

#[test]
fn update_filter_with_empty_query_shows_everything() {
    let mut s = sample();
    s.query = "zzz".to_string();
    s.update_filter();
    assert!(s.filtered.is_empty());
    s.query.clear();
    s.update_filter();
    assert_eq!(names(&s.filtered), names(&s.all_items));
}

#[test]
fn launch_command_of_app_and_project() {
    let a = SuggestionItem::App(app("ls", "/bin/ls"));
    let c = a.launch_command();
    assert_eq!(c.program, "/bin/ls");
    assert!(c.args.is_empty());
    let p = SuggestionItem::Project(project("notes", "/home/u/projects/notes"));
    let c = p.launch_command();
    assert_eq!(c.program, "sh");
    assert_eq!(
        c.args,
        vec![
            "-c".to_string(),
            "kitty -e tmux new-session sh -c \"cd '/home/u/projects/notes' && tdl c\"".to_string()
        ]
    );
}

#[test]
fn escape_closes_without_command() {
    let mut s = sample();
    assert!(matches!(s.handle_key(true, &Key::Escape), PopupAction::Close(None)));
}

#[test]
fn enter_launches_selected_item() {
    let mut s = sample();
    s.handle_key(true, &Key::ArrowDown);
    match s.handle_key(true, &Key::Enter) {
        PopupAction::Close(Some(c)) => {
            assert_eq!(c.program, "sh");
            assert!(c.args[1].contains("/home/u/projects/notes"));
        }
        _ => panic!("expected a command"),
    }
}

#[test]
fn enter_on_empty_list_closes_without_command() {
    let mut s = PopupState::new(vec![], vec![]);
    assert!(matches!(s.handle_key(true, &Key::Enter), PopupAction::Close(None)));
}

#[test]
fn released_keys_change_nothing() {
    let mut s = sample();
    assert!(matches!(s.handle_key(false, &Key::Character("a".to_string())), PopupAction::Refresh));
    assert_eq!(s.query, "");
    assert!(matches!(s.handle_key(false, &Key::Escape), PopupAction::Refresh));
}

#[test]
fn arrows_stay_within_list() {
    let mut s = sample();
    s.handle_key(true, &Key::ArrowUp);
    assert_eq!(s.selected, 0);
    for _ in 0..10 {
        s.handle_key(true, &Key::ArrowDown);
    }
    assert_eq!(s.selected, 4);
    s.handle_key(true, &Key::ArrowUp);
    assert_eq!(s.selected, 3);
}

#[test]
fn down_then_up_returns_to_same_row() {
    let mut s = sample();
    s.selected = 1;
    s.handle_key(true, &Key::ArrowDown);
    assert_eq!(s.selected, 2);
    s.handle_key(true, &Key::ArrowUp);
    assert_eq!(s.selected, 1);
}

#[test]
fn typing_and_erasing_restores_query_and_list() {
    let mut s = sample();
    s.handle_key(true, &Key::Character("f".to_string()));
    let before = names(&s.filtered);
    s.handle_key(true, &Key::ArrowDown);
    s.handle_key(true, &Key::Character("i".to_string()));
    assert_eq!(s.query, "fi");
    assert_eq!(s.selected, 0);
    s.handle_key(true, &Key::Backspace);
    assert_eq!(s.query, "f");
    assert_eq!(names(&s.filtered), before);
    assert_eq!(s.selected, 0);
}

#[test]
fn backspace_on_empty_query_changes_nothing() {
    let mut s = sample();
    s.selected = 3;
    assert!(matches!(s.handle_key(true, &Key::Backspace), PopupAction::Refresh));
    assert_eq!(s.query, "");
    assert_eq!(s.selected, 3);
}

#[test]
fn control_text_is_ignored_and_space_is_typed() {
    let mut s = sample();
    s.selected = 2;
    s.handle_key(true, &Key::Character("\u{7}".to_string()));
    assert_eq!(s.query, "");
    assert_eq!(s.selected, 2);
    s.handle_key(true, &Key::Character("\u{85}x".to_string()));
    assert_eq!(s.query, "");
    s.handle_key(true, &Key::Character(" ".to_string()));
    assert_eq!(s.query, " ");
    assert_eq!(s.selected, 0);
}

#[test]
fn other_keys_only_refresh() {
    let mut s = sample();
    s.selected = 1;
    assert!(matches!(s.handle_key(true, &Key::Other), PopupAction::Refresh));
    assert_eq!(s.selected, 1);
    assert_eq!(names(&s.filtered).len(), 5);
}
