//! The contents of a script's `package.json`.

use vstd::prelude::*;

verus! {

/// The package description of a script, as `package.json` stores it (the
/// project name under `displayName`, the script name under `name`, the default
/// keybind under `defaultKeybind`).
#[derive(Debug)]
pub struct PackageInfo {
    pub author: String,
    pub project_name: String,
    pub script_name: String,
    pub version: String,
    pub description: String,
    pub keywords: Vec<String>,
    pub default_keybind: String,
    pub main: String,
}

impl PackageInfo {
    /// An empty package whose entry file is `main.luau`.
    pub fn new() -> (r: Self)
        ensures
            r.author@.len() == 0,
            r.project_name@.len() == 0,
            r.script_name@.len() == 0,
            r.version@.len() == 0,
            r.description@.len() == 0,
            r.keywords@.len() == 0,
            r.default_keybind@.len() == 0,
            r.main@ == "main.luau"@,
    {
        PackageInfo {
            author: String::new(),
            project_name: String::new(),
            script_name: String::new(),
            version: String::new(),
            description: String::new(),
            keywords: Vec::new(),
            main: String::from_str("main.luau"),
            default_keybind: String::new(),
        }
    }
}

} // verus!
