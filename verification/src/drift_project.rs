//! A script project on disk: where its directories are, whether a new one can
//! be created, and the names its files get.
//!
//! A project directory holds a `Builds` directory for the packaged scripts and
//! a script directory, named after the script, that holds `package.json` and
//! the script's files.

use vstd::prelude::*;
use crate::errors::FailureKind;
use crate::package_info::PackageInfo;
use crate::paths::{
    file_name_or_empty, join_path, joined_path, name_or_empty, parent_of, parent_path,
    path_exists, path_file_name, get_path_file_name,
};
use crate::state::BuildProjectData;
use crate::text::{
    dash_spaces, lowercase, remove_spaces, same_text, spaces_to_dashes, to_lowercase, without_spaces,
};

verus! {

/// Why a `package.json` does not lie in a project's script directory, or why a
/// script directory cannot be renamed.
#[derive(Clone, Copy, Debug, PartialEq, Eq)]
pub enum ProjectError {
    /// Nothing is found at the given path.
    PackageMissing,
    /// The file is not called `package.json`.
    NotPackageFile,
    /// The package has no parent directory, or it is not found.
    NoScriptDirectory,
    /// The script directory is not named after the package's script name.
    ScriptNameMismatch,
    /// The script directory has no parent directory, or it is not found.
    NoProjectDirectory,
    /// The project directory is called `Behaviors`.
    BehaviorsDirectory,
    /// The project directory has no parent directory, or it is not found.
    NoProjectLocation,
    /// The script directory path has no final component or no parent.
    ScriptPathInvalid,
}

impl ProjectError {
    /// The kind under which the failure is reported.
    pub fn kind(&self) -> (r: FailureKind)
        ensures
            r == (match *self {
                ProjectError::PackageMissing => FailureKind::NotFound,
                ProjectError::NotPackageFile => FailureKind::InvalidFilename,
                _ => FailureKind::InvalidInput,
            }),
    {
        match self {
            ProjectError::PackageMissing => FailureKind::NotFound,
            ProjectError::NotPackageFile => FailureKind::InvalidFilename,
            _ => FailureKind::InvalidInput,
        }
    }

    /// The message shown for the failure.
    pub fn message(&self) -> (r: &'static str)
        ensures
            r@ == (match *self {
                ProjectError::PackageMissing => "package.json doesn't exist"@,
                ProjectError::NotPackageFile => "file not called package.json"@,
                ProjectError::NoScriptDirectory => "package.json is not in a script directory"@,
                ProjectError::ScriptNameMismatch =>
                    "script directory name does not match package.json 'name' property"@,
                ProjectError::NoProjectDirectory => "script directory is not in a project directory"@,
                ProjectError::BehaviorsDirectory =>
                    "'Behaviors' cannot be the project directory. Please create a separate parent directory for your script and try again."@,
                ProjectError::NoProjectLocation => "project directory is not in a parent directory"@,
                ProjectError::ScriptPathInvalid => "script directory has no name or no parent directory"@,
            }),
    {
        match self {
            ProjectError::PackageMissing => "package.json doesn't exist",
            ProjectError::NotPackageFile => "file not called package.json",
            ProjectError::NoScriptDirectory => "package.json is not in a script directory",
            ProjectError::ScriptNameMismatch =>
                "script directory name does not match package.json 'name' property",
            ProjectError::NoProjectDirectory => "script directory is not in a project directory",
            ProjectError::BehaviorsDirectory =>
                "'Behaviors' cannot be the project directory. Please create a separate parent directory for your script and try again.",
            ProjectError::NoProjectLocation => "project directory is not in a parent directory",
            ProjectError::ScriptPathInvalid => "script directory has no name or no parent directory",
        }
    }
}

/// The paths of a project found from its `package.json`.
#[derive(Debug)]
pub struct ProjectPaths {
    pub project_location: String,
    pub directory_name: String,
    pub package_path: String,
    pub project_path: String,
    pub script_path: String,
    pub build_path: String,
}

/// The characters of each path of a `ProjectPaths`.
pub struct ProjectPathsView {
    pub project_location: Seq<char>,
    pub directory_name: Seq<char>,
    pub package_path: Seq<char>,
    pub project_path: Seq<char>,
    pub script_path: Seq<char>,
    pub build_path: Seq<char>,
}

impl View for ProjectPaths {
    type V = ProjectPathsView;

    open spec fn view(&self) -> ProjectPathsView {
        ProjectPathsView {
            project_location: self.project_location@,
            directory_name: self.directory_name@,
            package_path: self.package_path@,
            project_path: self.project_path@,
            script_path: self.script_path@,
            build_path: self.build_path@,
        }
    }
}

/// What the file system answered about the paths that locating a project
/// looks at: whether the package, the script directory, the project
/// directory, the directory above it and the project's `Builds` directory
/// exist.
#[derive(Clone, Copy, Debug)]
pub struct PathProbe {
    pub package: bool,
    pub script: bool,
    pub project: bool,
    pub location: bool,
    pub builds: bool,
}

/// The paths that locating a project asks the file system about: the
/// package, the directory above it (the script directory), the one above that
/// (the project directory), the project's `Builds` directory and the directory
/// above the project. A path is `None` where the one below it has no parent.
pub struct ProbeTargets {
    pub package: String,
    pub script: Option<String>,
    pub project: Option<String>,
    pub builds: Option<String>,
    pub location: Option<String>,
}

/// The view of an optional path.
pub open spec fn opt_text(p: Option<String>) -> Option<Seq<char>> {
    match p {
        Some(s) => Some(s@),
        None => None,
    }
}

/// The parent of an optional path.
pub open spec fn parent_of_opt(p: Option<Seq<char>>) -> Option<Seq<char>> {
    match p {
        Some(q) => parent_path(q),
        None => None,
    }
}

/// The paths to ask about for the package at `package_path` (see `ProbeTargets`).
pub fn probe_targets(package_path: &str) -> (r: ProbeTargets)
    ensures
        r.package@ == package_path@,
        opt_text(r.script) == parent_path(package_path@),
        opt_text(r.project) == parent_of_opt(parent_path(package_path@)),
        opt_text(r.builds) == match parent_of_opt(parent_path(package_path@)) {
            Some(p) => Some(joined_path(p, "Builds"@)),
            None => None,
        },
        opt_text(r.location) == parent_of_opt(parent_of_opt(parent_path(package_path@))),
{
    let script = parent_of(package_path);
    let project = match &script {
        Some(s) => parent_of(s.as_str()),
        None => None,
    };
    let builds = match &project {
        Some(p) => Some(join_path(p.as_str(), "Builds")),
        None => None,
    };
    let location = match &project {
        Some(p) => parent_of(p.as_str()),
        None => None,
    };
    ProbeTargets { package: package_path.to_string(), script, project, builds, location }
}

/// Whether the optional path exists; a missing path does not.
fn exists_opt(p: &Option<String>) -> bool {
    match p {
        Some(q) => path_exists(q.as_str()),
        None => false,
    }
}

/// The outcome of locating a project from its `package.json` at
/// `package_path`, for a package whose script name is `script_name`, given
/// what the file system answered. The checks come in this order: the package
/// exists and is called `package.json`; its directory exists and is named
/// after the script; that directory's parent, the project directory, exists
/// and is not called `Behaviors`; the directory above exists. The build path
/// is the project's `Builds` directory where that exists, else empty.
pub open spec fn structure(package_path: Seq<char>, script_name: Seq<char>, probe: PathProbe) -> Result<
    ProjectPathsView,
    ProjectError,
> {
    if !probe.package {
        Err(ProjectError::PackageMissing)
    } else if name_or_empty(package_path) != "package.json"@ {
        Err(ProjectError::NotPackageFile)
    } else {
        match parent_path(package_path) {
            None => Err(ProjectError::NoScriptDirectory),
            Some(script) => if !probe.script {
                Err(ProjectError::NoScriptDirectory)
            } else if name_or_empty(script) != script_name {
                Err(ProjectError::ScriptNameMismatch)
            } else {
                match parent_path(script) {
                    None => Err(ProjectError::NoProjectDirectory),
                    Some(project) => if !probe.project {
                        Err(ProjectError::NoProjectDirectory)
                    } else if name_or_empty(project) == "Behaviors"@ {
                        Err(ProjectError::BehaviorsDirectory)
                    } else {
                        match parent_path(project) {
                            None => Err(ProjectError::NoProjectLocation),
                            Some(location) => if !probe.location {
                                Err(ProjectError::NoProjectLocation)
                            } else {
                                Ok(
                                    ProjectPathsView {
                                        project_location: location,
                                        directory_name: name_or_empty(project),
                                        package_path: package_path,
                                        project_path: project,
                                        script_path: script,
                                        build_path: if probe.builds {
                                            joined_path(project, "Builds"@)
                                        } else {
                                            Seq::empty()
                                        },
                                    },
                                )
                            },
                        }
                    },
                }
            },
        }
    }
}

/// The views of a result of locating a project.
pub open spec fn paths_result(r: Result<ProjectPaths, ProjectError>) -> Result<
    ProjectPathsView,
    ProjectError,
> {
    match r {
        Ok(p) => Ok(p@),
        Err(e) => Err(e),
    }
}

impl ProjectPaths {
    /// Paths that are all empty.
    pub fn new() -> (r: Self)
        ensures
            r.project_location@.len() == 0,
            r.directory_name@.len() == 0,
            r.package_path@.len() == 0,
            r.project_path@.len() == 0,
            r.script_path@.len() == 0,
            r.build_path@.len() == 0,
    {
        ProjectPaths {
            project_location: String::new(),
            directory_name: String::new(),
            package_path: String::new(),
            project_path: String::new(),
            script_path: String::new(),
            build_path: String::new(),
        }
    }

    /// Locates the project of the `package.json` at `package_path`, given what
    /// the file system answered about its paths (see `structure`).
    pub fn from_probe(package_path: String, package_info: &PackageInfo, probe: &PathProbe) -> (r:
        Result<ProjectPaths, ProjectError>)
        ensures
            paths_result(r) == structure(package_path@, package_info.script_name@, *probe),
    {
        if !probe.package {
            return Err(ProjectError::PackageMissing);
        }
        let package_name = file_name_or_empty(package_path.as_str());
        if !same_text(package_name.as_str(), "package.json") {
            return Err(ProjectError::NotPackageFile);
        }
        let script_path = match parent_of(package_path.as_str()) {
            Some(p) => p,
            None => return Err(ProjectError::NoScriptDirectory),
        };
        if !probe.script {
            return Err(ProjectError::NoScriptDirectory);
        }
        let script_name = file_name_or_empty(script_path.as_str());
        if !same_text(script_name.as_str(), package_info.script_name.as_str()) {
            return Err(ProjectError::ScriptNameMismatch);
        }
        let project_path = match parent_of(script_path.as_str()) {
            Some(p) => p,
            None => return Err(ProjectError::NoProjectDirectory),
        };
        if !probe.project {
            return Err(ProjectError::NoProjectDirectory);
        }
        let directory_name = file_name_or_empty(project_path.as_str());
        if same_text(directory_name.as_str(), "Behaviors") {
            return Err(ProjectError::BehaviorsDirectory);
        }
        let project_location = match parent_of(project_path.as_str()) {
            Some(p) => p,
            None => return Err(ProjectError::NoProjectLocation),
        };
        if !probe.location {
            return Err(ProjectError::NoProjectLocation);
        }
        let build_path = if probe.builds {
            join_path(project_path.as_str(), "Builds")
        } else {
            String::new()
        };
        Ok(
            ProjectPaths {
                project_location,
                directory_name,
                package_path,
                project_path,
                script_path,
                build_path,
            },
        )
    }

    /// Locates the project of the `package.json` at `package_path`: asks the
    /// file system about the package, the directories above it and the
    /// project's `Builds` directory, and decides as `structure` says for
    /// those answers.
    pub fn validate_project_structure(package_path: String, package_info: &PackageInfo) -> (r:
        Result<ProjectPaths, ProjectError>)
        ensures
            exists|probe: PathProbe|
                paths_result(r) == structure(package_path@, package_info.script_name@, probe),
    {
        let targets = probe_targets(package_path.as_str());
        let package = path_exists(targets.package.as_str());
        let script = exists_opt(&targets.script);
        let project = exists_opt(&targets.project);
        let builds = exists_opt(&targets.builds);
        let location = exists_opt(&targets.location);
        let probe = PathProbe { package, script, project, location, builds };
        Self::from_probe(package_path, package_info, &probe)
    }
}

/// A script project: where it lives and its package description.
#[derive(Debug)]
pub struct DriftProject {
    pub project_location: String,
    pub directory_name: String,
    pub package_path: String,
    pub project_path: String,
    pub script_path: String,
    pub build_path: String,
    pub package_info: PackageInfo,
}

/// The message of a refusal, if there is one.
pub open spec fn refusal(r: Result<(), &'static str>) -> Option<Seq<char>> {
    match r {
        Ok(_) => None,
        Err(m) => Some(m@),
    }
}

/// What is missing from a package before a project can be made of it: the
/// author, the project name and the version, checked in this order.
pub open spec fn missing_info(info: PackageInfo) -> Option<Seq<char>> {
    if info.author@.len() == 0 {
        Some("Missing author name"@)
    } else if info.project_name@.len() == 0 {
        Some("Missing project name"@)
    } else if info.version@.len() == 0 {
        Some("Missing version number"@)
    } else {
        None
    }
}

/// Why a project directory cannot be created, given whether the chosen
/// location exists and whether something already exists under the chosen
/// directory name there.
pub open spec fn creation_refusal(
    directory_name: Seq<char>,
    location_exists: bool,
    target_exists: bool,
) -> Option<Seq<char>> {
    if directory_name.len() == 0 {
        Some("Missing directory name"@)
    } else if !location_exists {
        Some("Missing project location"@)
    } else if target_exists {
        Some("Project with this name already exists"@)
    } else {
        None
    }
}

/// The name of the archive that building a project writes: the script name,
/// followed by ` - ` and the version when the build is tagged, then `.zip`.
pub open spec fn zip_name(script_name: Seq<char>, version: Seq<char>, version_tag: bool) -> Seq<
    char,
> {
    if version_tag {
        script_name + " - "@ + version + ".zip"@
    } else {
        script_name + ".zip"@
    }
}

/// Where a saved project's script directory must move to so that it is named
/// after the script again: `None` when it already is, an error when the script
/// path has no final component, or needs renaming but has no parent.
pub open spec fn script_rename(script_path: Seq<char>, script_name: Seq<char>) -> Result<
    Option<Seq<char>>,
    ProjectError,
> {
    match path_file_name(script_path) {
        None => Err(ProjectError::ScriptPathInvalid),
        Some(n) => if n == script_name {
            Ok(None)
        } else {
            match parent_path(script_path) {
                None => Err(ProjectError::ScriptPathInvalid),
                Some(p) => Ok(Some(joined_path(p, script_name))),
            }
        },
    }
}

/// The script name suggested for an author and a project name: both in lower
/// case without spaces, joined by a dot; empty while either is empty.
pub open spec fn suggested_name(author: Seq<char>, project_name: Seq<char>) -> Seq<char> {
    if author.len() == 0 || project_name.len() == 0 {
        Seq::empty()
    } else {
        without_spaces(lowercase(author)) + "."@ + without_spaces(lowercase(project_name))
    }
}

/// The script name suggested for `author` and `project_name` (see `suggested_name`).
pub fn suggested_script_name(author: &str, project_name: &str) -> (r: String)
    ensures
        r@ == suggested_name(author@, project_name@),
{
    if author.is_empty() || project_name.is_empty() {
        return String::new();
    }
    let a = to_lowercase(author);
    let p = to_lowercase(project_name);
    let mut r = remove_spaces(a.as_str());
    r.append(".");
    let rest = remove_spaces(p.as_str());
    r.append(rest.as_str());
    r
}

impl DriftProject {
    /// Whether this is the project that `new` gives: every path and every
    /// field of the package empty, with `main.luau` as the main file.
    pub open spec fn is_blank(&self) -> bool {
        &&& self.project_location@.len() == 0
        &&& self.directory_name@.len() == 0
        &&& self.package_path@.len() == 0
        &&& self.project_path@.len() == 0
        &&& self.script_path@.len() == 0
        &&& self.build_path@.len() == 0
        &&& self.package_info.author@.len() == 0
        &&& self.package_info.project_name@.len() == 0
        &&& self.package_info.script_name@.len() == 0
        &&& self.package_info.version@.len() == 0
        &&& self.package_info.description@.len() == 0
        &&& self.package_info.keywords@.len() == 0
        &&& self.package_info.default_keybind@.len() == 0
        &&& self.package_info.main@ == "main.luau"@
    }

    /// A project with empty paths and an empty package.
    pub fn new() -> (r: Self)
        ensures
            r.is_blank(),
            r.project_location@.len() == 0,
            r.directory_name@.len() == 0,
            r.package_path@.len() == 0,
            r.project_path@.len() == 0,
            r.script_path@.len() == 0,
            r.build_path@.len() == 0,
            r.package_info.author@.len() == 0,
            r.package_info.project_name@.len() == 0,
            r.package_info.script_name@.len() == 0,
            r.package_info.version@.len() == 0,
            r.package_info.description@.len() == 0,
            r.package_info.keywords@.len() == 0,
            r.package_info.default_keybind@.len() == 0,
            r.package_info.main@ == "main.luau"@,
    {
        DriftProject {
            project_location: String::new(),
            directory_name: String::new(),
            package_path: String::new(),
            project_path: String::new(),
            script_path: String::new(),
            build_path: String::new(),
            package_info: PackageInfo::new(),
        }
    }

    /// Refuses a package that lacks its author, project name or version.
    pub fn has_sufficient_info(&self) -> (r: Result<(), &'static str>)
        ensures
            refusal(r) == missing_info(self.package_info),
    {
        let package_info = &self.package_info;
        if package_info.author.as_str().is_empty() {
            return Err("Missing author name");
        }
        if package_info.project_name.as_str().is_empty() {
            return Err("Missing project name");
        }
        if package_info.version.as_str().is_empty() {
            return Err("Missing version number");
        }
        Ok(())
    }

    /// Whether the project directory can be created, given whether its
    /// location exists and whether its directory exists already (see
    /// `creation_refusal`).
    pub fn creatable_with(&self, location_exists: bool, target_exists: bool) -> (r: Result<
        (),
        &'static str,
    >)
        ensures
            refusal(r) == creation_refusal(self.directory_name@, location_exists, target_exists),
    {
        if self.directory_name.as_str().is_empty() {
            return Err("Missing directory name");
        }
        if !location_exists {
            return Err("Missing project location");
        }
        if target_exists {
            return Err("Project with this name already exists");
        }
        Ok(())
    }

    /// The paths that deciding whether the project can be created asks the
    /// file system about: its location, and the directory it would be created
    /// as there.
    pub fn creation_probe_targets(&self) -> (r: (String, String))
        ensures
            r.0@ == self.project_location@,
            r.1@ == joined_path(self.project_location@, self.directory_name@),
    {
        let location = self.project_location.clone();
        let target = join_path(self.project_location.as_str(), self.directory_name.as_str());
        (location, target)
    }

    /// Whether the project directory can be created: it needs a name, its
    /// location must exist and nothing may exist yet under its name there. The
    /// file system is asked about the paths of `creation_probe_targets`: the
    /// location and then, if it exists, the directory.
    pub fn is_creatable(&self) -> (r: Result<(), &'static str>)
        ensures
            exists|location_exists: bool, target_exists: bool|
                refusal(r) == creation_refusal(
                    self.directory_name@,
                    location_exists,
                    target_exists,
                ),
    {
        if self.directory_name.as_str().is_empty() {
            return self.creatable_with(false, false);
        }
        let (location, target) = self.creation_probe_targets();
        let location_exists = path_exists(location.as_str());
        let mut target_exists = false;
        if location_exists {
            target_exists = path_exists(target.as_str());
        }
        self.creatable_with(location_exists, target_exists)
    }

    /// The project of a located package.
    pub fn project_from_package(package_info: PackageInfo, paths: ProjectPaths) -> (r: Self)
        ensures
            r.project_location == paths.project_location,
            r.directory_name == paths.directory_name,
            r.package_path == paths.package_path,
            r.project_path == paths.project_path,
            r.script_path == paths.script_path,
            r.build_path == paths.build_path,
            r.package_info == package_info,
    {
        DriftProject {
            project_location: paths.project_location,
            directory_name: paths.directory_name,
            package_path: paths.package_path,
            project_path: paths.project_path,
            script_path: paths.script_path,
            build_path: paths.build_path,
            package_info,
        }
    }

    /// Forgets everything about the project: it becomes `DriftProject::new()`.
    pub fn reset_project_data(&mut self)
        ensures
            final(self).is_blank(),
            final(self).project_location@.len() == 0,
            final(self).directory_name@.len() == 0,
            final(self).package_path@.len() == 0,
            final(self).project_path@.len() == 0,
            final(self).script_path@.len() == 0,
            final(self).build_path@.len() == 0,
            final(self).package_info.author@.len() == 0,
            final(self).package_info.project_name@.len() == 0,
            final(self).package_info.script_name@.len() == 0,
            final(self).package_info.version@.len() == 0,
            final(self).package_info.description@.len() == 0,
            final(self).package_info.keywords@.len() == 0,
            final(self).package_info.default_keybind@.len() == 0,
            final(self).package_info.main@ == "main.luau"@,
    {
        *self = Self::new();
    }

    /// Sets the paths of a project about to be created: the project directory
    /// under the location, its `Builds` directory and script directory, and
    /// the `package.json` in the script directory.
    pub fn set_creation_paths(&mut self)
        ensures
            final(self).project_path@ == joined_path(
                old(self).project_location@,
                old(self).directory_name@,
            ),
            final(self).build_path@ == joined_path(final(self).project_path@, "Builds"@),
            final(self).script_path@ == joined_path(
                final(self).project_path@,
                old(self).package_info.script_name@,
            ),
            final(self).package_path@ == joined_path(final(self).script_path@, "package.json"@),
            final(self).project_location == old(self).project_location,
            final(self).directory_name == old(self).directory_name,
            final(self).package_info == old(self).package_info,
    {
        self.project_path = join_path(self.project_location.as_str(), self.directory_name.as_str());
        self.build_path = join_path(self.project_path.as_str(), "Builds");
        self.script_path = join_path(
            self.project_path.as_str(),
            self.package_info.script_name.as_str(),
        );
        self.package_path = join_path(self.script_path.as_str(), "package.json");
    }

    /// Takes the project information as entered: a script name left empty
    /// becomes `suggested_script_name`, and the project directory is named
    /// after the project with its spaces turned into dashes.
    pub fn accept_project_info(&mut self, suggested_script_name: String)
        ensures
            old(self).package_info.script_name@.len() == 0 ==> final(self).package_info.script_name@ == suggested_script_name@,
            old(self).package_info.script_name@.len() != 0 ==> final(self).package_info.script_name == old(self).package_info.script_name,
            final(self).directory_name@ == spaces_to_dashes(old(self).package_info.project_name@),
            final(self).project_location == old(self).project_location,
            final(self).package_path == old(self).package_path,
            final(self).project_path == old(self).project_path,
            final(self).script_path == old(self).script_path,
            final(self).build_path == old(self).build_path,
            final(self).package_info.author == old(self).package_info.author,
            final(self).package_info.project_name == old(self).package_info.project_name,
            final(self).package_info.version == old(self).package_info.version,
            final(self).package_info.description == old(self).package_info.description,
            final(self).package_info.keywords == old(self).package_info.keywords,
            final(self).package_info.default_keybind == old(self).package_info.default_keybind,
            final(self).package_info.main == old(self).package_info.main,
    {
        if self.package_info.script_name.as_str().is_empty() {
            self.package_info.script_name = suggested_script_name;
        }
        self.directory_name = dash_spaces(self.package_info.project_name.as_str());
    }

    /// The path of the archive that building the project writes, in its
    /// build directory.
    pub fn zip_file_path(&self, build_data: &BuildProjectData) -> (r: String)
        ensures
            r@ == joined_path(
                self.build_path@,
                zip_name(
                    self.package_info.script_name@,
                    self.package_info.version@,
                    build_data.version_tag,
                ),
            ),
    {
        let mut name = self.package_info.script_name.clone();
        if build_data.version_tag {
            name.append(" - ");
            name.append(self.package_info.version.as_str());
        }
        name.append(".zip");
        join_path(self.build_path.as_str(), name.as_str())
    }

    /// Where saving moves the script directory so that it is named after the
    /// script again (see `script_rename`).
    pub fn renamed_script_path(&self) -> (r: Result<Option<String>, ProjectError>)
        ensures
            match (r, script_rename(self.script_path@, self.package_info.script_name@)) {
                (Ok(Some(p)), Ok(Some(q))) => p@ == q,
                (Ok(None), Ok(None)) => true,
                (Err(e), Err(f)) => e == f,
                _ => false,
            },
    {
        let name = match get_path_file_name(self.script_path.as_str()) {
            Some(n) => n,
            None => return Err(ProjectError::ScriptPathInvalid),
        };
        if same_text(name.as_str(), self.package_info.script_name.as_str()) {
            return Ok(None);
        }
        match parent_of(self.script_path.as_str()) {
            Some(p) => Ok(Some(join_path(p.as_str(), self.package_info.script_name.as_str()))),
            None => Err(ProjectError::ScriptPathInvalid),
        }
    }
}

} // verus!
