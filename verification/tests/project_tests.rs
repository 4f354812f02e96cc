use std::path::Path;
use drift_script_manager::drift_project::{probe_targets, DriftProject, PathProbe, ProjectError, ProjectPaths, suggested_script_name};
use drift_script_manager::errors::FailureKind;
use drift_script_manager::package_info::PackageInfo;
use drift_script_manager::state::BuildProjectData;
use tempfile::{tempdir, Builder, NamedTempFile, TempDir};

fn script_name(author_name: &str, project_name: &str) -> String {
    format!("{}.{}", author_name.to_lowercase().replace(" ", ""), project_name.to_lowercase().replace(" ", ""))
}

fn create_test_package(author_name: &str, project_name: &str) -> PackageInfo {
    let script_name = script_name(author_name, project_name);

    PackageInfo {
        author: author_name.to_string(),
        project_name: project_name.to_string(),
        script_name,
        version: "1.0.0".to_string(),
        description: String::new(),
        keywords: Vec::new(),
        default_keybind: String::new(),
        main: "main.luau".to_string(),
    }
}

fn text(p: &Path) -> String {
    p.to_str().unwrap().to_string()
}

/// A directory of the exact name `name` inside `parent`.
fn named_dir(parent: &Path, name: &str) -> TempDir {
    Builder::new().prefix(name).rand_bytes(0).tempdir_in(parent).unwrap()
}

/// An empty file called `package.json` inside `dir`.
fn package_file(dir: &Path) -> NamedTempFile {
    Builder::new().prefix("package").suffix(".json").rand_bytes(0).tempfile_in(dir).unwrap()
}

struct TestProject {
    _package: NamedTempFile,
    _dirs: Vec<TempDir>,
    _temp: TempDir,
    project_path: String,
    package_path: String,
}

impl TestProject {
    fn valid(author_name: &str, project_name: &str) -> Self {
        let temp = tempdir().unwrap();
        let project = named_dir(temp.path(), project_name);
        let script = named_dir(project.path(), &script_name(author_name, project_name));
        let package = package_file(script.path());
        Self {
            project_path: text(project.path()),
            package_path: text(package.path()),
            _package: package,
            _dirs: vec![script, project],
            _temp: temp,
        }
    }

    fn with_builds(mut self) -> Self {
        let builds = named_dir(Path::new(&self.project_path), "Builds");
        self._dirs.insert(0, builds);
        self
    }

    fn invalid() -> Self {
        let temp = tempdir().unwrap();
        let project = named_dir(temp.path(), "Project");
        let package = package_file(project.path());
        Self {
            project_path: text(project.path()),
            package_path: text(package.path()),
            _package: package,
            _dirs: vec![project],
            _temp: temp,
        }
    }
}

#[test]
fn test_validate_project_structure_with_builds() {
    let package_info = create_test_package("Me", "Project");
    let test_project = TestProject::valid(&package_info.author, &package_info.project_name).with_builds();

    let result = ProjectPaths::validate_project_structure(test_project.package_path.clone(), &package_info);

    assert!(result.is_ok(), "Result should be Ok");
    let result = result.unwrap();
    assert_eq!(result.directory_name, "Project", "Directory name should be project name");
    assert!(Path::new(&result.build_path).exists(), "Builds path should exist");
}

#[test]
fn test_validate_project_structure_without_builds() {
    let package_info = create_test_package("Me", "Project");
    let test_project = TestProject::valid(&package_info.author, &package_info.project_name);

    let result = ProjectPaths::validate_project_structure(test_project.package_path.clone(), &package_info);

    assert!(result.is_ok(), "Result should be Ok");
    let result = result.unwrap();
    assert!(!Path::new(&result.build_path).exists(), "Builds path should not exist");
}

#[test]
fn test_invalid_project_structure_without_builds() {
    let package_info = create_test_package("Me", "Project");
    let test_project = TestProject::invalid();

    let result = ProjectPaths::validate_project_structure(test_project.package_path.clone(), &package_info);

    assert!(result.is_err());
}

#[test]
fn validated_paths_name_every_directory() {
    let package_info = create_test_package("Me", "Project");
    let test_project = TestProject::valid("Me", "Project").with_builds();
    let paths = ProjectPaths::validate_project_structure(test_project.package_path.clone(), &package_info).unwrap();
    let project = Path::new(&test_project.project_path);
    assert_eq!(paths.package_path, test_project.package_path);
    assert_eq!(paths.project_path, test_project.project_path);
    assert_eq!(paths.script_path, text(&project.join("me.project")));
    assert_eq!(paths.build_path, text(&project.join("Builds")));
    assert_eq!(paths.project_location, text(project.parent().unwrap()));
}

#[test]
fn missing_package_is_reported_first() {
    let package_info = create_test_package("Me", "Project");
    let temp = tempdir().unwrap();
    let missing = text(&temp.path().join("nothing.txt"));
    assert_eq!(ProjectPaths::validate_project_structure(missing, &package_info).unwrap_err(), ProjectError::PackageMissing);
}

#[test]
fn behaviors_directory_is_refused() {
    let package_info = create_test_package("Me", "Behaviors");
    let test_project = TestProject::valid("Me", "Behaviors");
    let result = ProjectPaths::validate_project_structure(test_project.package_path.clone(), &package_info);
    assert_eq!(result.unwrap_err(), ProjectError::BehaviorsDirectory);
}

fn all_found() -> PathProbe {
    PathProbe { package: true, script: true, project: true, location: true, builds: true }
}

#[test]
fn decisions_for_each_probe() {
    let info = create_test_package("Me", "Project");
    let pkg = "/home/me/Project/me.project/package.json".to_string();
    let ok = ProjectPaths::from_probe(pkg.clone(), &info, &all_found()).unwrap();
    assert_eq!(ok.script_path, "/home/me/Project/me.project");
    assert_eq!(ok.project_path, "/home/me/Project");
    assert_eq!(ok.directory_name, "Project");
    assert_eq!(ok.project_location, "/home/me");
    assert_eq!(ok.build_path, "/home/me/Project/Builds");

    let no_builds = ProjectPaths::from_probe(pkg.clone(), &info, &PathProbe { builds: false, ..all_found() }).unwrap();
    assert_eq!(no_builds.build_path, "");

    let check = |path: &str, probe: PathProbe| ProjectPaths::from_probe(path.to_string(), &info, &probe).unwrap_err();
    assert_eq!(check(&pkg, PathProbe { package: false, ..all_found() }), ProjectError::PackageMissing);
    assert_eq!(check("/home/me/Project/me.project/other.json", all_found()), ProjectError::NotPackageFile);
    assert_eq!(check(&pkg, PathProbe { script: false, ..all_found() }), ProjectError::NoScriptDirectory);
    assert_eq!(check("/home/me/Project/other/package.json", all_found()), ProjectError::ScriptNameMismatch);
    assert_eq!(check(&pkg, PathProbe { project: false, ..all_found() }), ProjectError::NoProjectDirectory);
    assert_eq!(check("/home/Behaviors/me.project/package.json", all_found()), ProjectError::BehaviorsDirectory);
    assert_eq!(check(&pkg, PathProbe { location: false, ..all_found() }), ProjectError::NoProjectLocation);
    assert_eq!(check("package.json", all_found()), ProjectError::ScriptNameMismatch);
}

#[test]
fn project_error_kinds_and_messages() {
    assert_eq!(ProjectError::PackageMissing.kind(), FailureKind::NotFound);
    assert_eq!(ProjectError::NotPackageFile.kind(), FailureKind::InvalidFilename);
    assert_eq!(ProjectError::ScriptNameMismatch.kind(), FailureKind::InvalidInput);
    assert_eq!(ProjectError::PackageMissing.message(), "package.json doesn't exist");
    assert_eq!(
        ProjectError::BehaviorsDirectory.message(),
        "'Behaviors' cannot be the project directory. Please create a separate parent directory for your script and try again."
    );
}

#[test]
fn test_has_sufficient_info() {
    let mut project: DriftProject = DriftProject::new();
    project.package_info.author = "Me".to_string();
    project.package_info.project_name = "Project".to_string();
    project.package_info.version = "1.0.0".to_string();

    assert!(project.has_sufficient_info().is_ok())
}

#[test]
fn test_has_insufficient_info() {
    let mut project: DriftProject = DriftProject::new();
    project.package_info.project_name = "Project".to_string();
    project.package_info.version = "1.0.0".to_string();

    assert_eq!(project.has_sufficient_info(), Err("Missing author name"));
}

#[test]
fn insufficient_info_in_order() {
    let mut project = DriftProject::new();
    project.package_info.author = "Me".to_string();
    assert_eq!(project.has_sufficient_info(), Err("Missing project name"));
    project.package_info.project_name = "P".to_string();
    assert_eq!(project.has_sufficient_info(), Err("Missing version number"));
}

#[test]
fn test_is_creatable() {
    let temp = tempdir().unwrap();
    let mut project: DriftProject = DriftProject::new();
    project.directory_name = "Project".to_string();
    project.project_location = text(temp.path());

    assert!(project.is_creatable().is_ok());
}

#[test]
fn test_is_creatable_already_exists() {
    let temp = tempdir().unwrap();
    let _existing = named_dir(temp.path(), "Project");

    let mut project: DriftProject = DriftProject::new();
    project.directory_name = "Project".to_string();
    project.project_location = text(temp.path());

    assert_eq!(project.is_creatable(), Err("Project with this name already exists"))
}

#[test]
fn creatable_decisions() {
    let mut project = DriftProject::new();
    assert_eq!(project.creatable_with(true, false), Err("Missing directory name"));
    assert_eq!(project.is_creatable(), Err("Missing directory name"));
    project.directory_name = "P".to_string();
    assert_eq!(project.creatable_with(false, false), Err("Missing project location"));
    assert_eq!(project.creatable_with(true, true), Err("Project with this name already exists"));
    assert_eq!(project.creatable_with(true, false), Ok(()));
    project.project_location = "/nonexistent/location/for/tests".to_string();
    assert_eq!(project.is_creatable(), Err("Missing project location"));
}

#[test]
fn new_project_is_blank() {
    let project = DriftProject::new();
    assert_eq!(project.package_info.main, "main.luau");
    assert!(project.package_info.author.is_empty());
    assert!(project.directory_name.is_empty());
    let info = PackageInfo::new();
    assert_eq!(info.main, "main.luau");
    assert!(info.keywords.is_empty());
    let paths = ProjectPaths::new();
    assert!(paths.package_path.is_empty() && paths.build_path.is_empty());
}

#[test]
fn reset_forgets_everything() {
    let mut project = DriftProject::new();
    project.directory_name = "x".to_string();
    project.package_info.author = "a".to_string();
    project.package_info.main = "other.luau".to_string();
    project.reset_project_data();
    assert!(project.directory_name.is_empty());
    assert!(project.package_info.author.is_empty());
    assert_eq!(project.package_info.main, "main.luau");
}

#[test]
fn project_from_package_keeps_paths() {
    let mut paths = ProjectPaths::new();
    paths.project_path = "/p".to_string();
    paths.script_path = "/p/s".to_string();
    paths.directory_name = "p".to_string();
    let project = DriftProject::project_from_package(create_test_package("Me", "P"), paths);
    assert_eq!(project.project_path, "/p");
    assert_eq!(project.script_path, "/p/s");
    assert_eq!(project.directory_name, "p");
    assert_eq!(project.package_info.script_name, "me.p");
}

#[test]
fn creation_paths_follow_the_names() {
    let mut project = DriftProject::new();
    project.project_location = "/home/me".to_string();
    project.directory_name = "My-Project".to_string();
    project.package_info.script_name = "me.myproject".to_string();
    project.set_creation_paths();
    assert_eq!(project.project_path, "/home/me/My-Project");
    assert_eq!(project.build_path, "/home/me/My-Project/Builds");
    assert_eq!(project.script_path, "/home/me/My-Project/me.myproject");
    assert_eq!(project.package_path, "/home/me/My-Project/me.myproject/package.json");
}

#[test]
fn zip_path_with_and_without_version() {
    let mut project = DriftProject::new();
    project.build_path = "/p/Builds".to_string();
    project.package_info.script_name = "me.project".to_string();
    project.package_info.version = "1.2.3".to_string();
    let mut data = BuildProjectData::default();
    assert_eq!(project.zip_file_path(&data), "/p/Builds/me.project.zip");
    data.version_tag = true;
    assert_eq!(project.zip_file_path(&data), "/p/Builds/me.project - 1.2.3.zip");
}

#[test]
fn script_directory_rename() {
    let mut project = DriftProject::new();
    project.script_path = "/p/me.old".to_string();
    project.package_info.script_name = "me.old".to_string();
    assert_eq!(project.renamed_script_path(), Ok(None));
    project.package_info.script_name = "me.new".to_string();
    assert_eq!(project.renamed_script_path(), Ok(Some("/p/me.new".to_string())));
    project.script_path = "/".to_string();
    assert_eq!(project.renamed_script_path(), Err(ProjectError::ScriptPathInvalid));
}

#[test]
fn suggested_names() {
    assert_eq!(suggested_script_name("John Doe", "My Cool Script"), "johndoe.mycoolscript");
    assert_eq!(suggested_script_name("", "x"), "");
    assert_eq!(suggested_script_name("x", ""), "");
}

#[test]
fn accepted_project_info() {
    let mut project = DriftProject::new();
    project.package_info.project_name = "My Cool Script".to_string();
    project.accept_project_info("me.mycoolscript".to_string());
    assert_eq!(project.package_info.script_name, "me.mycoolscript");
    assert_eq!(project.directory_name, "My-Cool-Script");
    project.accept_project_info("other".to_string());
    assert_eq!(project.package_info.script_name, "me.mycoolscript");
}

#[test]
fn probe_targets_climb_from_the_package() {
    let t = probe_targets("/home/me/Projects/Race/me.race/package.json");
    assert_eq!(t.package, "/home/me/Projects/Race/me.race/package.json");
    assert_eq!(t.script.as_deref(), Some("/home/me/Projects/Race/me.race"));
    assert_eq!(t.project.as_deref(), Some("/home/me/Projects/Race"));
    assert_eq!(t.builds.as_deref(), Some("/home/me/Projects/Race/Builds"));
    assert_eq!(t.location.as_deref(), Some("/home/me/Projects"));

    let top = probe_targets("/");
    assert_eq!(top.script, None);
    assert_eq!(top.project, None);
    assert_eq!(top.builds, None);
    assert_eq!(top.location, None);
}

#[test]
fn creation_probe_targets_are_location_and_directory() {
    let mut project = DriftProject::new();
    project.project_location = "/home/me/Projects".to_string();
    project.directory_name = "My-Race".to_string();
    let (location, target) = project.creation_probe_targets();
    assert_eq!(location, "/home/me/Projects");
    assert_eq!(target, "/home/me/Projects/My-Race");
}
