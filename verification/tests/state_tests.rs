use std::path::Path;
use drift_script_manager::app_data::AppData;
use drift_script_manager::drift_project::{DriftProject, ProjectError};
use drift_script_manager::package_info::PackageInfo;
use drift_script_manager::state::{
    save_project_edit, select_template, set_build_screen, set_edit_screen, try_get_project, BuildProjectData,
    CreateProjectData, EditTemplateData, GuiInfo, ProjectsData, ScreenData, ScreenState,
};
use drift_script_manager::template::{EmbeddedTemplate, Template};
use tempfile::{tempdir, Builder};

#[test]
fn initial_state() {
    let gui = GuiInfo::new();
    assert_eq!(gui.screen_state, ScreenState::MainMenu);
    assert!(gui.projects.edit_project.is_none() && gui.projects.build_project.is_none());
    assert!(gui.custom_templates.is_empty());
    let create = CreateProjectData::default();
    assert!(!create.open_directory && !create.create_repo);
    assert_eq!(create.template, Template::Embedded(EmbeddedTemplate::Empty));
    let build = BuildProjectData::default();
    assert!(!build.open_directory && !build.version_tag);
    let data = ScreenData::new();
    assert!(!data.build_data.version_tag);
    let projects = ProjectsData::new();
    assert!(projects.new_project_info.directory_name.is_empty());
    let edit = EditTemplateData::default();
    assert!(edit.selected_template.is_none() && edit.template_name.is_empty());
}

#[test]
fn screens_without_their_project_fall_back() {
    let mut gui = GuiInfo::new();
    gui.screen_state = ScreenState::BuildingProject;
    assert!(!gui.project_present());
    assert_eq!(gui.screen_state, ScreenState::MainMenu);
    gui.screen_state = ScreenState::EditProjectInfo;
    gui.projects.edit_project = Some(DriftProject::new());
    assert!(gui.project_present());
    assert_eq!(gui.screen_state, ScreenState::EditProjectInfo);
    gui.screen_state = ScreenState::CustomTemplates;
    assert!(gui.project_present());
}

#[test]
fn picking_projects() {
    let mut state = ScreenState::MainMenu;
    let mut build = None;
    set_build_screen(&mut state, &mut build, None);
    assert_eq!(state, ScreenState::MainMenu);
    assert!(build.is_none());
    set_build_screen(&mut state, &mut build, Some(DriftProject::new()));
    assert_eq!(state, ScreenState::SetBuildInfo);
    assert!(build.is_some());
    let mut edit = None;
    set_edit_screen(&mut state, &mut edit, Some(DriftProject::new()));
    assert_eq!(state, ScreenState::EditProjectInfo);
    save_project_edit(&mut state);
    assert_eq!(state, ScreenState::MainMenu);
}

#[test]
fn finishing_resets_the_options() {
    let mut gui = GuiInfo::new();
    gui.screen_state = ScreenState::CreatingProject;
    gui.projects.new_project_info.directory_name = "x".to_string();
    gui.screen_data.create_data.create_repo = true;
    gui.finish_creating();
    assert_eq!(gui.screen_state, ScreenState::MainMenu);
    assert!(gui.projects.new_project_info.directory_name.is_empty());
    assert!(!gui.screen_data.create_data.create_repo);
    gui.screen_data.build_data.version_tag = true;
    gui.finish_building();
    assert!(!gui.screen_data.build_data.version_tag);
}

#[test]
fn getting_a_project_offers_its_keywords() {
    let temp = tempdir().unwrap();
    let project_dir = Builder::new().prefix("Project").rand_bytes(0).tempdir_in(temp.path()).unwrap();
    let script = Builder::new().prefix("me.project").rand_bytes(0).tempdir_in(project_dir.path()).unwrap();
    let package_file = Builder::new().prefix("package").suffix(".json").rand_bytes(0).tempfile_in(script.path()).unwrap();
    let package: &Path = package_file.path();
    let mut info = PackageInfo::new();
    info.script_name = "me.project".to_string();
    info.keywords = vec!["pov".to_string(), "new one".to_string()];
    let mut data = AppData::new();
    data.keywords = vec!["POV".to_string()];
    let project = try_get_project(info, package.to_str().unwrap().to_string(), &mut data).unwrap();
    assert_eq!(project.directory_name, "Project");
    assert_eq!(data.keywords, vec!["POV", "New one"]);

    let mut other = PackageInfo::new();
    other.script_name = "wrong".to_string();
    other.keywords = vec!["z".to_string()];
    let err = try_get_project(other, package.to_str().unwrap().to_string(), &mut data).unwrap_err();
    assert_eq!(err, ProjectError::ScriptNameMismatch);
    assert_eq!(data.keywords, vec!["POV", "New one"]);
}

#[test]
fn creating_blanks_the_project_and_keeps_the_build_options() {
    let mut gui = GuiInfo::new();
    gui.screen_state = ScreenState::CreatingProject;
    gui.projects.new_project_info.package_info.author = "me".to_string();
    gui.projects.new_project_info.package_info.version = "1.0.0".to_string();
    gui.projects.new_project_info.project_location = "/tmp".to_string();
    gui.projects.new_project_info.package_info.keywords = vec!["Race".to_string()];
    gui.screen_data.build_data.version_tag = true;
    gui.custom_templates = vec![Template::Custom("mine".to_string())];
    gui.finish_creating();
    let p = &gui.projects.new_project_info;
    assert!(p.package_info.author.is_empty());
    assert!(p.package_info.version.is_empty());
    assert!(p.project_location.is_empty());
    assert!(p.package_info.keywords.is_empty());
    assert_eq!(p.package_info.main, "main.luau");
    assert!(gui.screen_data.build_data.version_tag);
    assert_eq!(gui.custom_templates, vec![Template::Custom("mine".to_string())]);
}

#[test]
fn selecting_templates() {
    let mut data = EditTemplateData::default();
    let a = Template::Custom("alpha".to_string());
    assert!(select_template(&mut data, &a));
    assert_eq!(data.selected_template, Some(a.clone()));
    assert_eq!(data.template_name, "alpha");
    assert!(data.sufficient_result.is_none());

    data.template_name = "edited".to_string();
    assert!(!select_template(&mut data, &a));
    assert_eq!(data.template_name, "edited");

    let b = Template::Embedded(EmbeddedTemplate::Default);
    assert!(select_template(&mut data, &b));
    assert_eq!(data.template_name, "default");
    assert_eq!(data.selected_template, Some(b));
}
