//! The commands of a session, and what each of them does to the registry.
//!
//! A session reads one command at a time and handles it to the end before it
//! reads the next. The functions here do the deciding: each takes a command,
//! changes the registry as the command asks, and says where the session stands
//! afterwards and what is left to do for the caller, who alone talks to the
//! user and to the disk.

use crate::error::RegistryError;
use crate::project::answer_texts;
use crate::project::empty_project;
use crate::project::positions;
use crate::registry::is_listing;
use crate::settings::PickRequest;
use crate::settings::Settings;
use crate::settings::SettingsModel;
use crate::text::join_names;
use crate::text::join_with;
use crate::text::texts;
use vstd::prelude::*;

verus! {

/// Where a session stands.
#[derive(Clone, Copy, Debug, PartialEq, Eq, Structural)]
pub enum Context {
    /// At the top: the next command is one of `HermesCommands`.
    Idle,
    /// Among the projects: the next command is one of `ProjectCommands`.
    ProjectContext,
    /// Among the profiles of the selected project: the next command is one
    /// of `ProfileCommands`.
    ProfileContext,
    /// The session is over.
    Finished,
}

/// The commands at the top.
#[derive(Debug)]
pub enum HermesCommands {
    Quit,
    Project,
    Profiles,
}

/// The commands among the projects.
#[derive(Debug)]
pub enum ProjectCommands {
    New { profile_name: String },
    Select,
    List,
    Back,
}

/// The commands among the profiles of the selected project.
#[derive(Debug)]
pub enum ProfileCommands {
    SetProfiles { profiles_string: String },
    Select,
    List,
    Back,
}

/// What is left to do for the caller once a command was handled.
#[derive(Debug)]
pub enum Effect {
    /// Nothing.
    Nothing,
    /// Show these lines to the user.
    Show { lines: Vec<String> },
    /// Tell the user that the command failed.
    Report { error: RegistryError },
    /// Tell the user that there is no project to select.
    NoProjects,
    /// Let the user pick one of these names, and hand the answer to
    /// `present_project_selection`.
    ChooseProject { names: Vec<String> },
    /// Let the user check some of the options, and hand the answer to
    /// `confirm_profile_selection`.
    ChooseProfiles { request: PickRequest },
    /// Tell the user that the profiles of the selected project were replaced.
    ProfilesReplaced,
    /// Show `summary` to the user, then save the registry. If saving fails,
    /// tell the user and go on: the registry in memory stays as it is.
    Confirmed { selection: Vec<usize>, summary: String },
    /// Save the registry and end the session.
    SaveAndExit,
}

/// Where the session stands after a command, and what is left to do.
#[derive(Debug)]
pub struct Step {
    pub context: Context,
    pub effect: Effect,
}

/// What separates the names in the summary of a confirmed selection.
pub open spec fn summary_separator() -> Seq<char> {
    ", "@
}

/// Handles a command given at the top: `project` and `profiles` lead into
/// their contexts, `quit` ends the session after a last save.
pub fn handle_commands(command: HermesCommands) -> (step: Step)
    ensures
        match command {
            HermesCommands::Quit => step.context == Context::Finished
                && step.effect is SaveAndExit,
            HermesCommands::Project => step.context == Context::ProjectContext
                && step.effect is Nothing,
            HermesCommands::Profiles => step.context == Context::ProfileContext
                && step.effect is Nothing,
        },
{
    match command {
        HermesCommands::Quit => Step { context: Context::Finished, effect: Effect::SaveAndExit },
        HermesCommands::Project => Step {
            context: Context::ProjectContext,
            effect: Effect::Nothing,
        },
        HermesCommands::Profiles => Step {
            context: Context::ProfileContext,
            effect: Effect::Nothing,
        },
    }
}

/// Handles a command given among the projects.
///
/// `new` puts an empty project under the given name, whatever stood there.
/// `select` asks for a pick among the names of the projects, or says that
/// there are none. `list` shows those names. `back` leads to the top. Only
/// `new` changes the registry.
pub fn handle_project_commands(settings: &mut Settings, command: ProjectCommands) -> (step: Step)
    ensures
        match command {
            ProjectCommands::New { profile_name } => {
                &&& final(settings)@ == old(settings)@.with_project(
                    profile_name@,
                    empty_project(),
                )
                &&& step.context == Context::ProjectContext
                &&& step.effect is Nothing
            },
            ProjectCommands::Select => {
                &&& final(settings)@ == old(settings)@
                &&& step.context == Context::ProjectContext
                &&& match step.effect {
                    Effect::NoProjects => old(settings)@.projects == Map::<
                        Seq<char>,
                        crate::project::ProjectModel,
                    >::empty(),
                    Effect::ChooseProject { names } => names.len() > 0 && is_listing(
                        texts(names@),
                        old(settings)@.projects,
                    ),
                    _ => false,
                }
            },
            ProjectCommands::List => {
                &&& final(settings)@ == old(settings)@
                &&& step.context == Context::ProjectContext
                &&& match step.effect {
                    Effect::Show { lines } => is_listing(texts(lines@), old(settings)@.projects),
                    _ => false,
                }
            },
            ProjectCommands::Back => {
                &&& final(settings)@ == old(settings)@
                &&& step.context == Context::Idle
                &&& step.effect is Nothing
            },
        },
{
    match command {
        ProjectCommands::New { profile_name } => {
            settings.create_project(profile_name);
            Step { context: Context::ProjectContext, effect: Effect::Nothing }
        },
        ProjectCommands::Select => {
            if settings.projects.is_empty() {
                Step { context: Context::ProjectContext, effect: Effect::NoProjects }
            } else {
                let names = settings.list_projects();
                proof {
                    if names.len() == 0 {
                        assert(settings@.projects =~= Map::<
                            Seq<char>,
                            crate::project::ProjectModel,
                        >::empty()) by {
                            assert forall|name: Seq<char>|
                                !settings@.projects.dom().contains(name) by {
                                assert(!texts(names@).contains(name));
                            }
                        }
                    }
                }
                Step { context: Context::ProjectContext, effect: Effect::ChooseProject { names } }
            }
        },
        ProjectCommands::List => {
            let lines = settings.list_projects();
            Step { context: Context::ProjectContext, effect: Effect::Show { lines } }
        },
        ProjectCommands::Back => Step { context: Context::Idle, effect: Effect::Nothing },
    }
}

/// What an answer of the project picker leads to: no change without an
/// answer, else the selection of the name that was picked.
pub open spec fn chosen_outcome(settings: SettingsModel, answer: Option<Seq<char>>) -> Result<
    SettingsModel,
    RegistryError,
> {
    match answer {
        None => Err(RegistryError::PickerCancelled),
        Some(name) => settings.select_outcome(name),
    }
}

/// The view of an answer of the project picker.
pub open spec fn choice_text(answer: Option<String>) -> Option<Seq<char>> {
    match answer {
        None => None,
        Some(name) => Some(name@),
    }
}

/// Settles a run of the project picker: `answer` is the name that the user
/// picked, or `None` when the picker was left without a pick. The name
/// becomes the selected project if it is the name of a project; otherwise
/// nothing changes.
pub fn present_project_selection(settings: &mut Settings, answer: Option<String>) -> (result:
    Result<(), RegistryError>)
    ensures
        match result {
            Ok(_) => chosen_outcome(old(settings)@, choice_text(answer)) == Ok::<
                SettingsModel,
                RegistryError,
            >(final(settings)@),
            Err(error) => chosen_outcome(old(settings)@, choice_text(answer)) == Err::<
                SettingsModel,
                RegistryError,
            >(error) && final(settings)@ == old(settings)@,
        },
{
    match answer {
        None => Err(RegistryError::PickerCancelled),
        Some(name) => settings.select_project(name.as_str()),
    }
}

/// Handles a command given among the profiles. Each command but `back` works
/// on the selected project, and fails if none is selected or if the selected
/// name is not the name of a project.
///
/// `set` replaces the profiles by the entries of the given list. `select`
/// asks for a pick among the profiles, or fails if there are none. `list`
/// shows the profiles. `back` leads to the top. Only `set` changes the
/// registry.
pub fn handle_profile_commands(settings: &mut Settings, command: ProfileCommands) -> (step: Step)
    ensures
        match command {
            ProfileCommands::SetProfiles { profiles_string } => {
                &&& step.context == Context::ProfileContext
                &&& match old(settings)@.set_profiles_outcome(
                    old(settings)@.selected_project,
                    profiles_string@,
                ) {
                    Ok(after) => final(settings)@ == after && step.effect is ProfilesReplaced,
                    Err(error) => final(settings)@ == old(settings)@ && step.effect
                        == (Effect::Report { error }),
                }
            },
            ProfileCommands::Select => {
                &&& final(settings)@ == old(settings)@
                &&& step.context == Context::ProfileContext
                &&& match old(settings)@.request_outcome(old(settings)@.selected_project) {
                    Ok(asked) => match step.effect {
                        Effect::ChooseProfiles { request } => request@ == asked,
                        _ => false,
                    },
                    Err(error) => step.effect == (Effect::Report { error }),
                }
            },
            ProfileCommands::List => {
                &&& final(settings)@ == old(settings)@
                &&& step.context == Context::ProfileContext
                &&& match old(settings)@.profiles_outcome(old(settings)@.selected_project) {
                    Ok(profiles) => match step.effect {
                        Effect::Show { lines } => texts(lines@) == profiles,
                        _ => false,
                    },
                    Err(error) => step.effect == (Effect::Report { error }),
                }
            },
            ProfileCommands::Back => {
                &&& final(settings)@ == old(settings)@
                &&& step.context == Context::Idle
                &&& step.effect is Nothing
            },
        },
{
    let selected = settings.selected_project.clone();
    let effect = match command {
        ProfileCommands::SetProfiles { profiles_string } => {
            match settings.set_profiles(selected.as_str(), profiles_string.as_str()) {
                Ok(_) => Effect::ProfilesReplaced,
                Err(error) => Effect::Report { error },
            }
        },
        ProfileCommands::Select => {
            match settings.picker_request(selected.as_str()) {
                Ok(request) => Effect::ChooseProfiles { request },
                Err(error) => Effect::Report { error },
            }
        },
        ProfileCommands::List => {
            match settings.list_profiles(selected.as_str()) {
                Ok(lines) => Effect::Show { lines },
                Err(error) => Effect::Report { error },
            }
        },
        ProfileCommands::Back => {
            return Step { context: Context::Idle, effect: Effect::Nothing };
        },
    };
    Step { context: Context::ProfileContext, effect }
}

/// Settles a run of the profile picker on the selected project: `answer`
/// holds the names that were left checked, or is `None` when the picker was
/// left without confirming. A confirmed answer is recorded as the project's
/// selection and summed up, in the order of the answer, for the user; the
/// registry is then to be saved. Any failure leaves the registry as it is.
pub fn confirm_profile_selection(settings: &mut Settings, answer: Option<Vec<String>>) -> (step:
    Step)
    ensures
        step.context == Context::ProfileContext,
        match old(settings)@.pick_outcome(old(settings)@.selected_project, answer_texts(answer)) {
            Ok(after) => final(settings)@ == after && match step.effect {
                Effect::Confirmed { selection, summary } => {
                    &&& positions(selection@)
                        == after.projects[after.selected_project].previously_selected
                    &&& summary@ == join_with(answer_texts(answer)->Some_0, summary_separator())
                },
                _ => false,
            },
            Err(error) => final(settings)@ == old(settings)@ && step.effect
                == (Effect::Report { error }),
        },
{
    let selected = settings.selected_project.clone();
    let summary = match &answer {
        None => String::new(),
        Some(names) => join_names(names, ", "),
    };
    let effect = match settings.pick_profiles(selected.as_str(), answer) {
        Ok(selection) => Effect::Confirmed { selection, summary },
        Err(error) => Effect::Report { error },
    };
    Step { context: Context::ProfileContext, effect }
}

} // verus!
