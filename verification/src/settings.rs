//! The registry: the projects and the name of the one that is selected.

use crate::error::RegistryError;
use crate::project::answer_texts;
use crate::project::clone_names;
use crate::project::create_new_project;
use crate::project::empty_project;
use crate::project::positions;
use crate::project::present_profile_selection;
use crate::project::Project;
use crate::project::ProjectModel;
use crate::registry::is_listing;
use crate::registry::Projects;
use crate::text::comma_free;
use crate::text::lemma_split_comma_free;
use crate::text::split_commas;
use crate::text::split_profiles;
use crate::text::texts;
use vstd::prelude::*;
use vstd::string::StringExecFns;

verus! {

/// The state of a session. `selected_project` is empty while no project is
/// selected. It should name one of `projects`, but nothing forces it to: the
/// operations that need the selected project say so when it is not there.
#[derive(Debug)]
pub struct Settings {
    pub selected_project: String,
    pub projects: Projects,
}

/// What a `Settings` holds, as mathematical values.
pub struct SettingsModel {
    pub selected_project: Seq<char>,
    pub projects: Map<Seq<char>, ProjectModel>,
}

impl View for Settings {
    type V = SettingsModel;

    open spec fn view(&self) -> SettingsModel {
        SettingsModel { selected_project: self.selected_project@, projects: self.projects@ }
    }
}

/// What a picker is asked: the options to show, and the positions among them
/// that are checked at the start.
#[derive(Debug)]
pub struct PickRequest {
    pub options: Vec<String>,
    pub defaults: Vec<usize>,
}

/// What a `PickRequest` holds, as mathematical values.
pub struct PickRequestModel {
    pub options: Seq<Seq<char>>,
    pub defaults: Seq<int>,
}

impl View for PickRequest {
    type V = PickRequestModel;

    open spec fn view(&self) -> PickRequestModel {
        PickRequestModel { options: texts(self.options@), defaults: positions(self.defaults@) }
    }
}

/// The registry without projects and without a selection.
pub open spec fn empty_settings() -> SettingsModel {
    SettingsModel { selected_project: Seq::empty(), projects: Map::empty() }
}

/// The project with the entries of `csv` as its profiles and no selection.
pub open spec fn project_of_list(csv: Seq<char>) -> ProjectModel {
    ProjectModel { profiles: split_commas(csv), previously_selected: Seq::empty() }
}

impl SettingsModel {
    /// The project that an operation on `name` works on: none is selected
    /// when `name` is empty, and a name that is not in the registry is not
    /// found.
    pub open spec fn resolve(self, name: Seq<char>) -> Result<ProjectModel, RegistryError> {
        if name.len() == 0 {
            Err(RegistryError::NoProjectSelected)
        } else if !self.projects.dom().contains(name) {
            Err(RegistryError::NotFound)
        } else {
            Ok(self.projects[name])
        }
    }

    /// Either no project is selected, or the selected name is the name of a
    /// project.
    pub open spec fn selection_known(self) -> bool {
        self.selected_project.len() == 0 || self.projects.dom().contains(self.selected_project)
    }

    /// The registry with `project` under `name`.
    pub open spec fn with_project(self, name: Seq<char>, project: ProjectModel) -> SettingsModel {
        SettingsModel {
            selected_project: self.selected_project,
            projects: self.projects.insert(name, project),
        }
    }

    /// Selecting `name`: it must be the name of a project.
    pub open spec fn select_outcome(self, name: Seq<char>) -> Result<SettingsModel, RegistryError> {
        if self.projects.dom().contains(name) {
            Ok(SettingsModel { selected_project: name, projects: self.projects })
        } else {
            Err(RegistryError::NotFound)
        }
    }

    /// Replacing the profiles of the project `name` by the entries of `csv`:
    /// the selection that was recorded for the old list is dropped.
    pub open spec fn set_profiles_outcome(self, name: Seq<char>, csv: Seq<char>) -> Result<
        SettingsModel,
        RegistryError,
    > {
        match self.resolve(name) {
            Err(error) => Err(error),
            Ok(_) => Ok(self.with_project(name, project_of_list(csv))),
        }
    }

    /// Settling a run of the picker on the project `name`.
    pub open spec fn pick_outcome(self, name: Seq<char>, answer: Option<Seq<Seq<char>>>) -> Result<
        SettingsModel,
        RegistryError,
    > {
        match self.resolve(name) {
            Err(error) => Err(error),
            Ok(project) => match project.selection_outcome(answer) {
                Err(error) => Err(error),
                Ok(reconciled) => Ok(self.with_project(name, reconciled)),
            },
        }
    }

    /// What the picker is to be asked for the project `name`: all its
    /// profiles, with the recorded positions that lie inside the list checked.
    /// A project without profiles gives nothing to ask.
    pub open spec fn request_outcome(self, name: Seq<char>) -> Result<
        PickRequestModel,
        RegistryError,
    > {
        match self.resolve(name) {
            Err(error) => Err(error),
            Ok(project) => if project.profiles.len() == 0 {
                Err(RegistryError::EmptyProfileList)
            } else {
                Ok(PickRequestModel { options: project.profiles, defaults: project.defaults() })
            },
        }
    }

    /// The profiles of the project `name`.
    pub open spec fn profiles_outcome(self, name: Seq<char>) -> Result<
        Seq<Seq<char>>,
        RegistryError,
    > {
        match self.resolve(name) {
            Err(error) => Err(error),
            Ok(project) => Ok(project.profiles),
        }
    }

    /// The registry after `set_profiles` was called on `name` with each of
    /// `inputs` in turn; a call that fails changes nothing.
    pub open spec fn after_lists(self, name: Seq<char>, inputs: Seq<Seq<char>>) -> SettingsModel
        decreases inputs.len(),
    {
        if inputs.len() == 0 {
            self
        } else {
            let before = self.after_lists(name, inputs.drop_last());
            match before.set_profiles_outcome(name, inputs.last()) {
                Ok(after) => after,
                Err(_) => before,
            }
        }
    }
}

impl Settings {
    /// A registry without projects and without a selection.
    pub fn new() -> (settings: Settings)
        ensures
            settings@ == empty_settings(),
    {
        Settings { selected_project: String::new(), projects: Projects::new() }
    }

    /// Puts a new, empty project under `name`. A project that stood under
    /// that name is lost: its profiles and its selection are not kept.
    pub fn create_project(&mut self, name: String)
        ensures
            final(self)@ == old(self)@.with_project(name@, empty_project()),
    {
        self.projects.insert(name, create_new_project());
    }

    /// The names of the projects, in the order of `name_lt`, each once.
    pub fn list_projects(&self) -> (names: Vec<String>)
        ensures
            is_listing(texts(names@), self@.projects),
    {
        self.projects.keys()
    }

    /// Selects the project `name`, which must be in the registry.
    pub fn select_project(&mut self, name: &str) -> (result: Result<(), RegistryError>)
        ensures
            match result {
                Ok(_) => old(self)@.select_outcome(name@) == Ok::<SettingsModel, RegistryError>(
                    final(self)@,
                ),
                Err(error) => old(self)@.select_outcome(name@) == Err::<
                    SettingsModel,
                    RegistryError,
                >(error) && final(self)@ == old(self)@,
            },
    {
        if self.projects.contains_key(name) {
            self.selected_project = String::from_str(name);
            Ok(())
        } else {
            Err(RegistryError::NotFound)
        }
    }

    /// Replaces the profiles of the project `project_name` by the entries of
    /// the comma-separated list `profiles_csv`, as they stand: nothing is
    /// trimmed, nothing is left out. The recorded selection is cleared.
    pub fn set_profiles(&mut self, project_name: &str, profiles_csv: &str) -> (result: Result<
        (),
        RegistryError,
    >)
        ensures
            match result {
                Ok(_) => old(self)@.set_profiles_outcome(project_name@, profiles_csv@) == Ok::<
                    SettingsModel,
                    RegistryError,
                >(final(self)@),
                Err(error) => old(self)@.set_profiles_outcome(project_name@, profiles_csv@) == Err::<
                    SettingsModel,
                    RegistryError,
                >(error) && final(self)@ == old(self)@,
            },
    {
        if project_name.unicode_len() == 0 {
            return Err(RegistryError::NoProjectSelected);
        }
        if !self.projects.contains_key(project_name) {
            return Err(RegistryError::NotFound);
        }
        let project = Project {
            profiles: split_profiles(profiles_csv),
            previously_selected: Vec::new(),
        };
        assert(project@.previously_selected =~= Seq::<int>::empty());
        self.projects.insert(String::from_str(project_name), project);
        Ok(())
    }

    /// The project that an operation on `name` works on.
    fn lookup(&self, name: &str) -> (result: Result<&Project, RegistryError>)
        ensures
            match result {
                Ok(project) => self@.resolve(name@) == Ok::<ProjectModel, RegistryError>(project@),
                Err(error) => self@.resolve(name@) == Err::<ProjectModel, RegistryError>(error),
            },
    {
        if name.unicode_len() == 0 {
            return Err(RegistryError::NoProjectSelected);
        }
        match self.projects.get(name) {
            None => Err(RegistryError::NotFound),
            Some(project) => Ok(project),
        }
    }

    /// The profiles of the project `project_name`, in their order.
    pub fn list_profiles(&self, project_name: &str) -> (result: Result<Vec<String>, RegistryError>)
        ensures
            match result {
                Ok(names) => self@.profiles_outcome(project_name@) == Ok::<
                    Seq<Seq<char>>,
                    RegistryError,
                >(texts(names@)),
                Err(error) => self@.profiles_outcome(project_name@) == Err::<
                    Seq<Seq<char>>,
                    RegistryError,
                >(error),
            },
    {
        match self.lookup(project_name) {
            Err(error) => Err(error),
            Ok(project) => Ok(clone_names(&project.profiles)),
        }
    }

    /// What to ask the picker for the project `project_name`.
    pub fn picker_request(&self, project_name: &str) -> (result: Result<PickRequest, RegistryError>)
        ensures
            match result {
                Ok(request) => self@.request_outcome(project_name@) == Ok::<
                    PickRequestModel,
                    RegistryError,
                >(request@),
                Err(error) => self@.request_outcome(project_name@) == Err::<
                    PickRequestModel,
                    RegistryError,
                >(error),
            },
    {
        match self.lookup(project_name) {
            Err(error) => Err(error),
            Ok(project) => {
                if project.profiles.len() == 0 {
                    Err(RegistryError::EmptyProfileList)
                } else {
                    Ok(
                        PickRequest {
                            options: clone_names(&project.profiles),
                            defaults: project.valid_defaults(),
                        },
                    )
                }
            },
        }
    }

    /// Settles a run of the picker on the project `project_name`: `answer`
    /// holds the names that were left checked, or is `None` when the picker
    /// was left without confirming. On success the project keeps its
    /// profiles, its selection becomes every position that holds a confirmed
    /// name, and that selection is returned. On failure nothing changes.
    pub fn pick_profiles(&mut self, project_name: &str, answer: Option<Vec<String>>) -> (result:
        Result<Vec<usize>, RegistryError>)
        ensures
            match result {
                Ok(selection) => old(self)@.pick_outcome(project_name@, answer_texts(answer))
                    == Ok::<SettingsModel, RegistryError>(final(self)@) && positions(selection@)
                    == final(self)@.projects[project_name@].previously_selected,
                Err(error) => old(self)@.pick_outcome(project_name@, answer_texts(answer)) == Err::<
                    SettingsModel,
                    RegistryError,
                >(error) && final(self)@ == old(self)@,
            },
    {
        let updated = match self.lookup(project_name) {
            Err(error) => {
                return Err(error);
            },
            Ok(project) => match present_profile_selection(project, answer) {
                Err(error) => {
                    return Err(error);
                },
                Ok(updated) => updated,
            },
        };
        let selection = updated.previously_selected.clone();
        self.projects.insert(String::from_str(project_name), updated);
        Ok(selection)
    }
}

/// However often `set_profiles` is called on a project, what counts is the
/// last call: the project then holds the entries of the last list, as they
/// stand in it, and no selection.
pub proof fn lemma_last_list_wins(settings: SettingsModel, name: Seq<char>, inputs: Seq<Seq<char>>)
    requires
        settings.resolve(name) is Ok,
        inputs.len() > 0,
    ensures
        settings.after_lists(name, inputs).projects.dom().contains(name),
        settings.after_lists(name, inputs).projects[name] == project_of_list(inputs.last()),
        settings.after_lists(name, inputs).projects[name].profiles == split_commas(inputs.last()),
        settings.after_lists(name, inputs).projects[name].previously_selected.len() == 0,
{
    lemma_lists_keep_project(settings, name, inputs.drop_last());
}

/// Calls of `set_profiles` on a project leave that project in the registry.
pub proof fn lemma_lists_keep_project(
    settings: SettingsModel,
    name: Seq<char>,
    inputs: Seq<Seq<char>>,
)
    requires
        settings.resolve(name) is Ok,
    ensures
        settings.after_lists(name, inputs).resolve(name) is Ok,
    decreases inputs.len(),
{
    if inputs.len() > 0 {
        lemma_lists_keep_project(settings, name, inputs.drop_last());
    }
}

/// No profile that `set_profiles` records holds a comma: a comma in the list
/// always separates two entries.
pub proof fn lemma_listed_profiles_comma_free(
    settings: SettingsModel,
    name: Seq<char>,
    csv: Seq<char>,
)
    requires
        settings.set_profiles_outcome(name, csv) is Ok,
    ensures
        forall|i: int|
            0 <= i < settings.set_profiles_outcome(name, csv)->Ok_0.projects[name].profiles.len()
                ==> comma_free(
                #[trigger] settings.set_profiles_outcome(name, csv)->Ok_0.projects[name].profiles[i],
            ),
{
    lemma_split_comma_free(csv);
}

/// No operation loses a project, so a selection that names a project goes on
/// naming one: creating a project, replacing profiles and settling a pick
/// keep it, and selecting a project establishes it.
pub proof fn lemma_selection_stays_known(
    settings: SettingsModel,
    name: Seq<char>,
    csv: Seq<char>,
    answer: Option<Seq<Seq<char>>>,
)
    ensures
        settings.select_outcome(name) is Ok ==> settings.select_outcome(
            name,
        )->Ok_0.selection_known(),
        settings.selection_known() ==> settings.with_project(name, empty_project()).selection_known(),
        settings.selection_known() && settings.set_profiles_outcome(name, csv) is Ok
            ==> settings.set_profiles_outcome(name, csv)->Ok_0.selection_known(),
        settings.selection_known() && settings.pick_outcome(name, answer) is Ok
            ==> settings.pick_outcome(name, answer)->Ok_0.selection_known(),
{
}

/// A project without profiles cannot be picked from, whatever the picker
/// would answer, and the registry stays as it is.
pub proof fn lemma_pick_without_profiles(
    settings: SettingsModel,
    name: Seq<char>,
    answer: Option<Seq<Seq<char>>>,
)
    requires
        settings.resolve(name) is Ok,
        settings.projects[name].profiles.len() == 0,
    ensures
        settings.pick_outcome(name, answer) == Err::<SettingsModel, RegistryError>(
            RegistryError::EmptyProfileList,
        ),
{
}

/// Settling the same answer twice on a project is the same as settling it
/// once.
pub proof fn lemma_pick_twice(settings: SettingsModel, name: Seq<char>, confirmed: Seq<Seq<char>>)
    requires
        settings.pick_outcome(name, Some(confirmed)) is Ok,
    ensures
        settings.pick_outcome(name, Some(confirmed))->Ok_0.pick_outcome(name, Some(confirmed))
            == settings.pick_outcome(name, Some(confirmed)),
{
    let once = settings.pick_outcome(name, Some(confirmed))->Ok_0;
    let twice = once.pick_outcome(name, Some(confirmed))->Ok_0;
    assert(twice.projects =~= once.projects);
}

} // verus!
