use hermes::commands::confirm_profile_selection;
use hermes::commands::handle_commands;
use hermes::commands::handle_profile_commands;
use hermes::commands::handle_project_commands;
use hermes::commands::present_project_selection;
use hermes::commands::Context;
use hermes::commands::Effect;
use hermes::commands::HermesCommands;
use hermes::commands::ProfileCommands;
use hermes::commands::ProjectCommands;
use hermes::error::RegistryError;
use hermes::settings::Settings;
use hermes::store::read_settings_from_file;
use hermes::store::restore_settings;
use hermes::store::Backing;
use hermes::store::LoadStep;

fn names(list: &[&str]) -> Vec<String> {
    list.iter().map(|s| s.to_string()).collect()
}

#[test]
fn top_commands() {
    let step = handle_commands(HermesCommands::Project);
    assert_eq!(step.context, Context::ProjectContext);
    assert!(matches!(step.effect, Effect::Nothing));
    let step = handle_commands(HermesCommands::Profiles);
    assert_eq!(step.context, Context::ProfileContext);
    assert!(matches!(step.effect, Effect::Nothing));
    let step = handle_commands(HermesCommands::Quit);
    assert_eq!(step.context, Context::Finished);
    assert!(matches!(step.effect, Effect::SaveAndExit));
}

#[test]
fn project_commands() {
    let mut settings = Settings::new();
    let step = handle_project_commands(&mut settings, ProjectCommands::Select);
    assert_eq!(step.context, Context::ProjectContext);
    assert!(matches!(step.effect, Effect::NoProjects));
    assert_eq!(settings.selected_project, "");

    for name in ["web", "api"] {
        let step = handle_project_commands(
            &mut settings,
            ProjectCommands::New { profile_name: name.to_string() },
        );
        assert_eq!(step.context, Context::ProjectContext);
        assert!(matches!(step.effect, Effect::Nothing));
    }
    let step = handle_project_commands(&mut settings, ProjectCommands::List);
    match step.effect {
        Effect::Show { lines } => assert_eq!(lines, names(&["api", "web"])),
        other => panic!("unexpected effect {:?}", other),
    }
    let step = handle_project_commands(&mut settings, ProjectCommands::Select);
    match step.effect {
        Effect::ChooseProject { names: offered } => assert_eq!(offered, names(&["api", "web"])),
        other => panic!("unexpected effect {:?}", other),
    }
    let step = handle_project_commands(&mut settings, ProjectCommands::Back);
    assert_eq!(step.context, Context::Idle);
    assert!(matches!(step.effect, Effect::Nothing));
}

#[test]
fn project_selection_is_settled() {
    let mut settings = Settings::new();
    settings.create_project("api".to_string());
    assert_eq!(
        present_project_selection(&mut settings, None),
        Err(RegistryError::PickerCancelled)
    );
    assert_eq!(settings.selected_project, "");
    assert_eq!(
        present_project_selection(&mut settings, Some("web".to_string())),
        Err(RegistryError::NotFound)
    );
    assert_eq!(settings.selected_project, "");
    assert_eq!(present_project_selection(&mut settings, Some("api".to_string())), Ok(()));
    assert_eq!(settings.selected_project, "api");
}

#[test]
fn profile_commands_need_a_project() {
    let mut settings = Settings::new();
    for command in [
        ProfileCommands::SetProfiles { profiles_string: "a,b".to_string() },
        ProfileCommands::Select,
        ProfileCommands::List,
    ] {
        let step = handle_profile_commands(&mut settings, command);
        assert_eq!(step.context, Context::ProfileContext);
        assert!(matches!(step.effect, Effect::Report { error: RegistryError::NoProjectSelected }));
    }
    settings.selected_project = "gone".to_string();
    for command in [
        ProfileCommands::SetProfiles { profiles_string: "a,b".to_string() },
        ProfileCommands::Select,
        ProfileCommands::List,
    ] {
        let step = handle_profile_commands(&mut settings, command);
        assert!(matches!(step.effect, Effect::Report { error: RegistryError::NotFound }));
    }
    assert!(settings.projects.is_empty());
}

#[test]
fn a_whole_session() {
    let mut settings = Settings::new();
    handle_project_commands(&mut settings, ProjectCommands::New { profile_name: "api".to_string() });
    present_project_selection(&mut settings, Some("api".to_string())).unwrap();

    let step = handle_profile_commands(&mut settings, ProfileCommands::Select);
    assert!(matches!(step.effect, Effect::Report { error: RegistryError::EmptyProfileList }));

    let step = handle_profile_commands(
        &mut settings,
        ProfileCommands::SetProfiles { profiles_string: "dev,staging,prod".to_string() },
    );
    assert_eq!(step.context, Context::ProfileContext);
    assert!(matches!(step.effect, Effect::ProfilesReplaced));

    let step = handle_profile_commands(&mut settings, ProfileCommands::List);
    match step.effect {
        Effect::Show { lines } => assert_eq!(lines, names(&["dev", "staging", "prod"])),
        other => panic!("unexpected effect {:?}", other),
    }

    let step = handle_profile_commands(&mut settings, ProfileCommands::Select);
    match step.effect {
        Effect::ChooseProfiles { request } => {
            assert_eq!(request.options, names(&["dev", "staging", "prod"]));
            assert!(request.defaults.is_empty());
        }
        other => panic!("unexpected effect {:?}", other),
    }

    let step = confirm_profile_selection(&mut settings, Some(names(&["dev", "prod"])));
    assert_eq!(step.context, Context::ProfileContext);
    match step.effect {
        Effect::Confirmed { selection, summary } => {
            assert_eq!(selection, vec![0, 2]);
            assert_eq!(summary, "dev, prod");
        }
        other => panic!("unexpected effect {:?}", other),
    }
    let project = settings.projects.get("api").unwrap();
    assert_eq!(project.profiles, names(&["dev", "staging", "prod"]));
    assert_eq!(project.previously_selected, vec![0, 2]);

    let step = handle_profile_commands(&mut settings, ProfileCommands::Select);
    match step.effect {
        Effect::ChooseProfiles { request } => assert_eq!(request.defaults, vec![0, 2]),
        other => panic!("unexpected effect {:?}", other),
    }
    let step = confirm_profile_selection(&mut settings, None);
    assert!(matches!(step.effect, Effect::Report { error: RegistryError::PickerCancelled }));
    assert_eq!(settings.projects.get("api").unwrap().previously_selected, vec![0, 2]);

    let step = handle_profile_commands(&mut settings, ProfileCommands::Back);
    assert_eq!(step.context, Context::Idle);
    assert!(matches!(step.effect, Effect::Nothing));
    assert_eq!(settings.selected_project, "api");
}

#[test]
fn loading_without_a_store() {
    match read_settings_from_file(Backing::Missing) {
        Ok(LoadStep::Fresh { settings }) => {
            assert_eq!(settings.selected_project, "");
            assert!(settings.projects.is_empty());
        }
        other => panic!("unexpected step {:?}", other),
    }
    match read_settings_from_file(Backing::Contents { text: String::new() }) {
        Ok(LoadStep::Fresh { settings }) => {
            assert_eq!(settings.selected_project, "");
            assert!(settings.projects.is_empty());
        }
        other => panic!("unexpected step {:?}", other),
    }
}

#[test]
fn loading_from_a_store() {
    match read_settings_from_file(Backing::Contents { text: "{}".to_string() }) {
        Ok(LoadStep::Decode { text }) => assert_eq!(text, "{}"),
        other => panic!("unexpected step {:?}", other),
    }
    match read_settings_from_file(Backing::Contents { text: " ".to_string() }) {
        Ok(LoadStep::Decode { text }) => assert_eq!(text, " "),
        other => panic!("unexpected step {:?}", other),
    }
    assert!(matches!(read_settings_from_file(Backing::Unreadable), Err(RegistryError::IoError)));
}

#[test]
fn decoded_settings_are_taken_over() {
    assert!(matches!(restore_settings(None), Err(RegistryError::MalformedState)));
    let mut stored = Settings::new();
    stored.create_project("api".to_string());
    stored.selected_project = "api".to_string();
    let settings = restore_settings(Some(stored)).unwrap();
    assert_eq!(settings.selected_project, "api");
    assert_eq!(settings.list_projects(), names(&["api"]));
}

#[test]
fn each_failure_has_its_message() {
    let all = [
        RegistryError::NotFound,
        RegistryError::NoProjectSelected,
        RegistryError::EmptyProfileList,
        RegistryError::PickerCancelled,
        RegistryError::IoError,
        RegistryError::MalformedState,
    ];
    for (i, a) in all.iter().enumerate() {
        assert!(!a.message().is_empty());
        for b in all.iter().skip(i + 1) {
            assert_ne!(a.message(), b.message());
        }
    }
    assert_eq!(
        RegistryError::EmptyProfileList.message(),
        "No profiles available to select, please add profiles to this project"
    );
}
