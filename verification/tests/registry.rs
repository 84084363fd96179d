use hermes::error::RegistryError;
use hermes::project::create_new_project;
use hermes::project::present_profile_selection;
use hermes::project::Project;
use hermes::registry::Projects;
use hermes::settings::Settings;

fn names(list: &[&str]) -> Vec<String> {
    list.iter().map(|s| s.to_string()).collect()
}

#[test]
fn new_settings_are_empty() {
    let settings = Settings::new();
    assert_eq!(settings.selected_project, "");
    assert!(settings.projects.is_empty());
    assert_eq!(settings.list_projects(), Vec::<String>::new());
}

#[test]
fn new_project_is_empty() {
    let project = create_new_project();
    assert!(project.profiles.is_empty());
    assert!(project.previously_selected.is_empty());
}

#[test]
fn create_then_set_then_pick() {
    let mut settings = Settings::new();
    settings.create_project("api".to_string());
    assert_eq!(settings.set_profiles("api", "dev,staging,prod"), Ok(()));
    let picked = settings.pick_profiles("api", Some(names(&["dev", "prod"])));
    assert_eq!(picked, Ok(vec![0, 2]));
    let project = settings.projects.get("api").unwrap();
    assert_eq!(project.profiles, names(&["dev", "staging", "prod"]));
    assert_eq!(project.previously_selected, vec![0, 2]);
}

#[test]
fn set_profiles_keeps_entries_as_they_stand() {
    let mut settings = Settings::new();
    settings.create_project("p".to_string());
    assert_eq!(settings.set_profiles("p", "a, b"), Ok(()));
    assert_eq!(settings.projects.get("p").unwrap().profiles, names(&["a", " b"]));
    assert_eq!(settings.set_profiles("p", "x,x,,y,"), Ok(()));
    assert_eq!(settings.projects.get("p").unwrap().profiles, names(&["x", "x", "", "y", ""]));
}

#[test]
fn last_list_wins() {
    let mut settings = Settings::new();
    settings.create_project("p".to_string());
    for list in ["a,b,c", "d", "e,f"] {
        assert_eq!(settings.set_profiles("p", list), Ok(()));
    }
    let project = settings.projects.get("p").unwrap();
    assert_eq!(project.profiles, names(&["e", "f"]));
    assert!(project.previously_selected.is_empty());
}

#[test]
fn set_profiles_clears_the_selection() {
    let mut settings = Settings::new();
    settings.create_project("p".to_string());
    settings.set_profiles("p", "a,b,c").unwrap();
    settings.pick_profiles("p", Some(names(&["b", "c"]))).unwrap();
    assert_eq!(settings.projects.get("p").unwrap().previously_selected, vec![1, 2]);
    settings.set_profiles("p", "a,b,c").unwrap();
    assert!(settings.projects.get("p").unwrap().previously_selected.is_empty());
}

#[test]
fn set_profiles_without_selection() {
    let mut settings = Settings::new();
    settings.create_project("p".to_string());
    assert_eq!(settings.set_profiles("", "a,b"), Err(RegistryError::NoProjectSelected));
    assert!(settings.projects.get("p").unwrap().profiles.is_empty());
}

#[test]
fn set_profiles_on_missing_project() {
    let mut settings = Settings::new();
    settings.create_project("p".to_string());
    assert_eq!(settings.set_profiles("q", "a,b"), Err(RegistryError::NotFound));
    assert_eq!(settings.list_projects(), names(&["p"]));
}

#[test]
fn pick_on_empty_profile_list() {
    let mut settings = Settings::new();
    settings.projects.insert(
        "p".to_string(),
        Project { profiles: vec![], previously_selected: vec![4, 1] },
    );
    let picked = settings.pick_profiles("p", Some(names(&["a"])));
    assert_eq!(picked, Err(RegistryError::EmptyProfileList));
    let project = settings.projects.get("p").unwrap();
    assert!(project.profiles.is_empty());
    assert_eq!(project.previously_selected, vec![4, 1]);
    assert_eq!(
        settings.picker_request("p").map(|r| r.options),
        Err(RegistryError::EmptyProfileList)
    );
}

#[test]
fn pick_cancelled_changes_nothing() {
    let mut settings = Settings::new();
    settings.create_project("p".to_string());
    settings.set_profiles("p", "a,b").unwrap();
    settings.pick_profiles("p", Some(names(&["b"]))).unwrap();
    assert_eq!(settings.pick_profiles("p", None), Err(RegistryError::PickerCancelled));
    let project = settings.projects.get("p").unwrap();
    assert_eq!(project.profiles, names(&["a", "b"]));
    assert_eq!(project.previously_selected, vec![1]);
}

#[test]
fn pick_without_project() {
    let mut settings = Settings::new();
    assert_eq!(
        settings.pick_profiles("", Some(names(&["a"]))),
        Err(RegistryError::NoProjectSelected)
    );
    assert_eq!(settings.pick_profiles("gone", Some(names(&["a"]))), Err(RegistryError::NotFound));
}

#[test]
fn pick_follows_the_list_not_the_answer() {
    let mut settings = Settings::new();
    settings.create_project("p".to_string());
    settings.set_profiles("p", "a,b,c,d").unwrap();
    let picked = settings.pick_profiles("p", Some(names(&["d", "a", "zzz"])));
    assert_eq!(picked, Ok(vec![0, 3]));
}

#[test]
fn pick_with_repeated_names() {
    let mut settings = Settings::new();
    settings.create_project("p".to_string());
    settings.set_profiles("p", "a,b,a").unwrap();
    assert_eq!(settings.pick_profiles("p", Some(names(&["a"]))), Ok(vec![0, 2]));
    assert_eq!(settings.pick_profiles("p", Some(vec![])), Ok(vec![]));
}

#[test]
fn same_answer_twice_is_a_fixed_point() {
    let mut settings = Settings::new();
    settings.create_project("p".to_string());
    settings.set_profiles("p", "dev,staging,prod").unwrap();
    let first = settings.pick_profiles("p", Some(names(&["staging", "prod"]))).unwrap();
    let request = settings.picker_request("p").unwrap();
    assert_eq!(request.defaults, first);
    let checked: Vec<String> = request.defaults.iter().map(|i| request.options[*i].clone()).collect();
    let second = settings.pick_profiles("p", Some(checked)).unwrap();
    assert_eq!(first, second);
    assert_eq!(second, vec![1, 2]);
}

#[test]
fn request_leaves_out_positions_outside_the_list() {
    let mut settings = Settings::new();
    settings.projects.insert(
        "p".to_string(),
        Project { profiles: names(&["a", "b"]), previously_selected: vec![5, 1, 2, 0] },
    );
    let request = settings.picker_request("p").unwrap();
    assert_eq!(request.options, names(&["a", "b"]));
    assert_eq!(request.defaults, vec![1, 0]);
    assert_eq!(settings.projects.get("p").unwrap().valid_defaults(), vec![1, 0]);
}

#[test]
fn create_project_overwrites() {
    let mut settings = Settings::new();
    settings.create_project("p".to_string());
    settings.set_profiles("p", "a,b").unwrap();
    settings.pick_profiles("p", Some(names(&["a"]))).unwrap();
    settings.create_project("p".to_string());
    let project = settings.projects.get("p").unwrap();
    assert!(project.profiles.is_empty());
    assert!(project.previously_selected.is_empty());
    assert_eq!(settings.list_projects(), names(&["p"]));
}

#[test]
fn projects_are_listed_by_name() {
    let mut settings = Settings::new();
    for name in ["web", "api", "apis", "Zed", "", "ap", "\u{e9}t\u{e9}"] {
        settings.create_project(name.to_string());
    }
    assert_eq!(
        settings.list_projects(),
        names(&["", "Zed", "ap", "api", "apis", "web", "\u{e9}t\u{e9}"])
    );
}

#[test]
fn select_project_by_name() {
    let mut settings = Settings::new();
    settings.create_project("api".to_string());
    assert_eq!(settings.select_project("web"), Err(RegistryError::NotFound));
    assert_eq!(settings.selected_project, "");
    assert_eq!(settings.select_project("api"), Ok(()));
    assert_eq!(settings.selected_project, "api");
}

#[test]
fn list_profiles_of_a_project() {
    let mut settings = Settings::new();
    settings.create_project("api".to_string());
    settings.set_profiles("api", "b,a").unwrap();
    assert_eq!(settings.list_profiles("api"), Ok(names(&["b", "a"])));
    assert_eq!(settings.list_profiles(""), Err(RegistryError::NoProjectSelected));
    assert_eq!(settings.list_profiles("x"), Err(RegistryError::NotFound));
}

#[test]
fn projects_map_operations() {
    let mut projects = Projects::new();
    assert!(projects.is_empty());
    assert!(!projects.contains_key("a"));
    assert!(projects.get("a").is_none());
    projects.insert("b".to_string(), Project { profiles: names(&["x"]), previously_selected: vec![0] });
    projects.insert("a".to_string(), create_new_project());
    projects.insert("b".to_string(), Project { profiles: names(&["y"]), previously_selected: vec![] });
    assert!(!projects.is_empty());
    assert!(projects.contains_key("a"));
    assert!(projects.contains_key("b"));
    assert!(!projects.contains_key("c"));
    assert_eq!(projects.keys(), names(&["a", "b"]));
    assert_eq!(projects.get("b").unwrap().profiles, names(&["y"]));
    assert!(projects.get("b").unwrap().previously_selected.is_empty());
}

#[test]
fn selection_is_settled_on_a_project() {
    let project = Project { profiles: names(&["dev", "staging", "prod"]), previously_selected: vec![1] };
    let settled = present_profile_selection(&project, Some(names(&["prod", "dev"]))).unwrap();
    assert_eq!(settled.profiles, names(&["dev", "staging", "prod"]));
    assert_eq!(settled.previously_selected, vec![0, 2]);
    assert_eq!(
        present_profile_selection(&project, None).map(|p| p.profiles),
        Err(RegistryError::PickerCancelled)
    );
    let empty = create_new_project();
    assert_eq!(
        present_profile_selection(&empty, Some(names(&["dev"]))).map(|p| p.profiles),
        Err(RegistryError::EmptyProfileList)
    );
    assert_eq!(
        present_profile_selection(&empty, None).map(|p| p.profiles),
        Err(RegistryError::EmptyProfileList)
    );
}
