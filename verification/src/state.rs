//! The state the screens of the tool keep between frames.

use vstd::prelude::*;
use crate::template::{name_of_template, EmbeddedTemplate, Template, TemplateError};
use crate::text::same_text;
use crate::app_data::{keyword_texts, keywords_after, AppData};
use crate::drift_project::{structure, DriftProject, PathProbe, ProjectError, ProjectPaths};
use crate::package_info::PackageInfo;

verus! {

/// What the "new template" screen has been given so far.
pub struct CreateTemplateData {
    pub template_name: String,
    pub create_main: bool,
    /// The outcome of the last name check, if the name was checked.
    pub sufficient_result: Option<Result<(), TemplateError>>,
}

impl Default for CreateTemplateData {
    /// No name yet, no `main.luau`, nothing checked.
    fn default() -> (r: Self)
        ensures
            r.template_name@.len() == 0,
            !r.create_main,
            r.sufficient_result is None,
    {
        CreateTemplateData { template_name: String::new(), create_main: false, sufficient_result: None }
    }
}

/// What the "edit templates" screen has been given so far.
pub struct EditTemplateData {
    pub template_name: String,
    pub selected_template: Option<Template>,
    /// The outcome of the last name check, if the name was checked.
    pub sufficient_result: Option<Result<(), TemplateError>>,
}

impl Default for EditTemplateData {
    /// No name, no template selected, nothing checked.
    fn default() -> (r: Self)
        ensures
            r.template_name@.len() == 0,
            r.selected_template is None,
            r.sufficient_result is None,
    {
        EditTemplateData { template_name: String::new(), selected_template: None, sufficient_result: None }
    }
}

/// Whether `t` is already the selected template (templates are told apart by
/// their names).
pub open spec fn is_selected(selected: Option<Template>, t: Template) -> bool {
    match selected {
        Some(s) => name_of_template(s) == name_of_template(t),
        None => false,
    }
}

/// A copy of a template.
fn template_copy(t: &Template) -> (r: Template)
    ensures
        r == *t,
{
    match t {
        Template::Embedded(e) => Template::Embedded(*e),
        Template::Custom(n) => Template::Custom(n.clone()),
    }
}

/// Clicks `template` in the list of the "edit templates" screen. A template
/// that is selected already changes nothing; any other becomes the selected
/// one, its name is entered for editing and the name is to be checked anew.
/// Returns whether the selection changed.
pub fn select_template(data: &mut EditTemplateData, template: &Template) -> (changed: bool)
    ensures
        changed == !is_selected(old(data).selected_template, *template),
        changed ==> final(data).selected_template == Some(*template)
            && final(data).template_name@ == name_of_template(*template)
            && final(data).sufficient_result is None,
        !changed ==> *final(data) == *old(data),
{
    let already = match &data.selected_template {
        Some(s) => {
            let a = s.name();
            let b = template.name();
            same_text(a.as_str(), b.as_str())
        },
        None => false,
    };
    if already {
        return false;
    }
    data.selected_template = Some(template_copy(template));
    data.template_name = template.name();
    data.sufficient_result = None;
    true
}

/// The options of the "create project" screen.
pub struct CreateProjectData {
    pub open_directory: bool,
    pub create_repo: bool,
    pub template: Template,
}

/// The options of the "create project" screen.
pub type CreateData = CreateProjectData;

impl CreateProjectData {
    /// Neither opening the directory nor creating a repository, from the empty template.
    pub fn default() -> (r: Self)
        ensures
            !r.open_directory,
            !r.create_repo,
            r.template == Template::Embedded(EmbeddedTemplate::Empty),
    {
        CreateProjectData {
            open_directory: false,
            create_repo: false,
            template: Template::Embedded(EmbeddedTemplate::Empty),
        }
    }
}

/// The options of the "build project" screen.
pub struct BuildProjectData {
    pub open_directory: bool,
    /// Whether the archive's name carries the version.
    pub version_tag: bool,
}

/// The options of the "build project" screen.
pub type BuildData = BuildProjectData;

impl BuildProjectData {
    /// Neither opening the directory nor tagging the version.
    pub fn default() -> (r: Self)
        ensures
            !r.open_directory,
            !r.version_tag,
    {
        BuildProjectData { open_directory: false, version_tag: false }
    }
}

/// The options of the project screens.
pub struct ScreenData {
    pub create_data: CreateProjectData,
    pub build_data: BuildProjectData,
}

impl ScreenData {
    /// The default options of both screens.
    pub fn new() -> (r: Self)
        ensures
            !r.create_data.open_directory,
            !r.create_data.create_repo,
            r.create_data.template == Template::Embedded(EmbeddedTemplate::Empty),
            !r.build_data.open_directory,
            !r.build_data.version_tag,
    {
        ScreenData { create_data: CreateProjectData::default(), build_data: BuildProjectData::default() }
    }
}

/// The projects the screens work on: the one being set up, the one being
/// edited and the one being built.
pub struct ProjectsData {
    pub new_project_info: DriftProject,
    pub edit_project: Option<DriftProject>,
    pub build_project: Option<DriftProject>,
}

impl ProjectsData {
    /// A blank new project, nothing being edited or built.
    pub fn new() -> (r: Self)
        ensures
            r.new_project_info.directory_name@.len() == 0,
            r.new_project_info.project_location@.len() == 0,
            r.new_project_info.package_info.author@.len() == 0,
            r.new_project_info.package_info.project_name@.len() == 0,
            r.new_project_info.package_info.script_name@.len() == 0,
            r.new_project_info.package_info.version@.len() == 0,
            r.new_project_info.is_blank(),
            r.edit_project is None,
            r.build_project is None,
    {
        ProjectsData { new_project_info: DriftProject::new(), edit_project: None, build_project: None }
    }
}


/// The screens of the tool.
#[derive(Clone, Copy, Debug, PartialEq, Eq)]
pub enum ScreenState {
    MainMenu,
    SetProjectInfo,
    CreateProject,
    CreatingProject,
    SetBuildInfo,
    BuildingProject,
    EditProjectInfo,
    SavingProjectInfo,
    CustomTemplates,
    NewTemplate,
    EditTemplates,
}

/// Whether the project screen sets up a new project or edits one.
#[derive(Clone, Copy, Debug, PartialEq, Eq)]
pub enum ProjectMode {
    New,
    Edit,
}

/// Everything the screens keep between frames.
pub struct GuiInfo {
    pub screen_state: ScreenState,
    pub screen_data: ScreenData,
    pub projects: ProjectsData,
    pub custom_templates: Vec<Template>,
    pub create_template_data: CreateTemplateData,
    pub edit_template_data: EditTemplateData,
}

/// Whether a screen works on the project being edited.
pub open spec fn needs_edit_project(s: ScreenState) -> bool {
    s == ScreenState::EditProjectInfo || s == ScreenState::SavingProjectInfo
}

/// Whether a screen works on the project being built.
pub open spec fn needs_build_project(s: ScreenState) -> bool {
    s == ScreenState::SetBuildInfo || s == ScreenState::BuildingProject
}

impl GuiInfo {
    /// The main menu, with nothing entered and no custom templates listed.
    pub fn new() -> (r: Self)
        ensures
            r.screen_state == ScreenState::MainMenu,
            !r.screen_data.create_data.open_directory,
            !r.screen_data.create_data.create_repo,
            r.screen_data.create_data.template == Template::Embedded(EmbeddedTemplate::Empty),
            !r.screen_data.build_data.open_directory,
            !r.screen_data.build_data.version_tag,
            r.projects.new_project_info.is_blank(),
            r.projects.edit_project is None,
            r.projects.build_project is None,
            r.custom_templates@.len() == 0,
            r.create_template_data.template_name@.len() == 0,
            !r.create_template_data.create_main,
            r.create_template_data.sufficient_result is None,
            r.edit_template_data.template_name@.len() == 0,
            r.edit_template_data.selected_template is None,
            r.edit_template_data.sufficient_result is None,
    {
        GuiInfo {
            screen_state: ScreenState::MainMenu,
            screen_data: ScreenData::new(),
            projects: ProjectsData::new(),
            custom_templates: Vec::new(),
            create_template_data: CreateTemplateData::default(),
            edit_template_data: EditTemplateData::default(),
        }
    }

    /// Whether the project that the current screen works on is there; where it
    /// is missing, the screen falls back to the main menu.
    pub fn project_present(&mut self) -> (r: bool)
        ensures
            r == !((needs_edit_project(old(self).screen_state) && old(self).projects.edit_project is None) || (needs_build_project(old(self).screen_state) && old(self).projects.build_project is None)),
            r ==> final(self).screen_state == old(self).screen_state,
            !r ==> final(self).screen_state == ScreenState::MainMenu,
            final(self).projects == old(self).projects,
            final(self).screen_data == old(self).screen_data,
            final(self).custom_templates == old(self).custom_templates,
            final(self).create_template_data == old(self).create_template_data,
            final(self).edit_template_data == old(self).edit_template_data,
    {
        let missing = match self.screen_state {
            ScreenState::EditProjectInfo | ScreenState::SavingProjectInfo => self.projects.edit_project.is_none(),
            ScreenState::SetBuildInfo | ScreenState::BuildingProject => self.projects.build_project.is_none(),
            _ => false,
        };
        if missing {
            self.screen_state = ScreenState::MainMenu;
        }
        !missing
    }

    /// After the new project's files were written: the new project and the
    /// creation options are reset and the main menu shows.
    pub fn finish_creating(&mut self)
        ensures
            final(self).screen_state == ScreenState::MainMenu,
            final(self).projects.new_project_info.directory_name@.len() == 0,
            final(self).projects.new_project_info.package_info.script_name@.len() == 0,
            final(self).projects.new_project_info.package_info.project_name@.len() == 0,
            final(self).projects.new_project_info.is_blank(),
            final(self).projects.edit_project == old(self).projects.edit_project,
            final(self).projects.build_project == old(self).projects.build_project,
            final(self).screen_data.build_data == old(self).screen_data.build_data,
            final(self).custom_templates == old(self).custom_templates,
            final(self).create_template_data == old(self).create_template_data,
            final(self).edit_template_data == old(self).edit_template_data,
            !final(self).screen_data.create_data.open_directory,
            !final(self).screen_data.create_data.create_repo,
            final(self).screen_data.create_data.template == Template::Embedded(EmbeddedTemplate::Empty),
    {
        self.projects.new_project_info.reset_project_data();
        self.screen_data.create_data = CreateProjectData::default();
        self.screen_state = ScreenState::MainMenu;
    }

    /// After a build: the build options are reset and the main menu shows.
    pub fn finish_building(&mut self)
        ensures
            final(self).screen_state == ScreenState::MainMenu,
            !final(self).screen_data.build_data.open_directory,
            !final(self).screen_data.build_data.version_tag,
            final(self).projects == old(self).projects,
            final(self).screen_data.create_data == old(self).screen_data.create_data,
            final(self).custom_templates == old(self).custom_templates,
            final(self).create_template_data == old(self).create_template_data,
            final(self).edit_template_data == old(self).edit_template_data,
    {
        self.screen_data.build_data = BuildProjectData::default();
        self.screen_state = ScreenState::MainMenu;
    }
}

/// After the edited project was saved (the outcome is reported where the
/// saving happens): the main menu shows.
pub fn save_project_edit(screen_state: &mut ScreenState)
    ensures
        *final(screen_state) == ScreenState::MainMenu,
{
    *screen_state = ScreenState::MainMenu;
}

/// Opens the build screen on the picked project, or stays in the main menu
/// when none was picked.
pub fn set_build_screen(
    screen_state: &mut ScreenState,
    build_project: &mut Option<DriftProject>,
    picked: Option<DriftProject>,
)
    ensures
        picked is None ==> *final(screen_state) == ScreenState::MainMenu && *final(build_project)
            == *old(build_project),
        picked is Some ==> *final(screen_state) == ScreenState::SetBuildInfo && *final(build_project) == picked,
{
    match picked {
        Some(p) => {
            *screen_state = ScreenState::SetBuildInfo;
            *build_project = Some(p);
        },
        None => {
            *screen_state = ScreenState::MainMenu;
        },
    }
}

/// Opens the edit screen on the picked project, or stays in the main menu
/// when none was picked.
pub fn set_edit_screen(
    screen_state: &mut ScreenState,
    edit_project: &mut Option<DriftProject>,
    picked: Option<DriftProject>,
)
    ensures
        picked is None ==> *final(screen_state) == ScreenState::MainMenu && *final(edit_project)
            == *old(edit_project),
        picked is Some ==> *final(screen_state) == ScreenState::EditProjectInfo && *final(edit_project) == picked,
{
    match picked {
        Some(p) => {
            *screen_state = ScreenState::EditProjectInfo;
            *edit_project = Some(p);
        },
        None => {
            *screen_state = ScreenState::MainMenu;
        },
    }
}

/// The project of a picked `package.json`: the package's project is located
/// (see `ProjectPaths::validate_project_structure`) and its keywords are
/// offered to the keyword list. A package that is not found in a project is
/// refused and the keyword list is left alone.
pub fn try_get_project(package_info: PackageInfo, package_path: String, app_data: &mut AppData) -> (r:
    Result<DriftProject, ProjectError>)
    ensures
        exists|probe: PathProbe|
            #![trigger structure(package_path@, package_info.script_name@, probe)]
            match (r, structure(package_path@, package_info.script_name@, probe)) {
                (Ok(p), Ok(v)) => {
                    &&& p.package_info == package_info
                    &&& p.project_location@ == v.project_location
                    &&& p.directory_name@ == v.directory_name
                    &&& p.package_path@ == v.package_path
                    &&& p.project_path@ == v.project_path
                    &&& p.script_path@ == v.script_path
                    &&& p.build_path@ == v.build_path
                },
                (Err(e), Err(f)) => e == f,
                _ => false,
            },
        r is Ok ==> keyword_texts(final(app_data).keywords@) == keywords_after(
            keyword_texts(old(app_data).keywords@),
            keyword_texts(package_info.keywords@),
        ),
        r is Err ==> final(app_data).keywords == old(app_data).keywords,
        final(app_data).outer_window_pos == old(app_data).outer_window_pos,
        forall|i: int|
            old(app_data).keywords.len() <= i < final(app_data).keywords.len() ==> (
            #[trigger] final(app_data).keywords@[i])@.len() > 0,
{
    let paths = ProjectPaths::validate_project_structure(package_path, &package_info)?;
    let project = DriftProject::project_from_package(package_info, paths);
    app_data.update_keywords(project.package_info.keywords.as_slice());
    Ok(project)
}

} // verus!
