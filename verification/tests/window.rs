use appshell::window::{find_window, main_window_name, window_action, WindowAction};

#[test]
fn main_window_is_named_main() {
    assert_eq!(main_window_name(), "main");
}

#[test]
fn lookup_of_an_absent_name_is_empty_and_the_step_is_skipped() {
    let windows = vec![String::from("settings"), String::from("about")];
    let name = String::from("main");
    let found = find_window(&windows, &name);
    assert_eq!(found, None);
    assert_eq!(window_action(found), WindowAction::Skip);
}

#[test]
fn lookup_in_an_empty_registry_is_empty() {
    let windows: Vec<String> = vec![];
    let found = find_window(&windows, &String::from("main"));
    assert_eq!(found, None);
    assert_eq!(window_action(found), WindowAction::Skip);
}

#[test]
fn lookup_of_a_present_name_finds_its_first_index() {
    let windows = vec![
        String::from("splash"),
        String::from("main"),
        String::from("main"),
    ];
    let name = String::from("main");
    let found = find_window(&windows, &name);
    assert_eq!(found, Some(1));
    assert_eq!(window_action(found), WindowAction::Maximize);
}
