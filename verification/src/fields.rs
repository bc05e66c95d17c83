//! The facts about a package that a description can report.

use vstd::prelude::*;
use vstd::string::StringExecFns;

verus! {

/// One fact about a package.
#[derive(Clone, Copy, Debug, PartialEq, Eq, Structural)]
pub enum Fields {
    /// Name of the package.
    Name,
    /// Version of the package, from its manifest.
    Version,
    /// What `git describe` says of the package.
    GitVersion,
    /// Path of the module's directory, relative to the root directory.
    ModuleRelativePath,
    /// Absolute path of the module's directory.
    ModuleAbsolutePath,
    /// Path of the module's manifest, relative to the root directory.
    ModuleRelativeManifestPath,
    /// Absolute path of the module's manifest.
    ModuleAbsoluteManifestPath,
}

impl Fields {
    /// The words under which the fact is shown.
    pub open spec fn label_text(self) -> Seq<char> {
        match self {
            Fields::Name => "Name"@,
            Fields::Version => "Version"@,
            Fields::GitVersion => "Git Version"@,
            Fields::ModuleRelativePath => "Module Relative Path"@,
            Fields::ModuleAbsolutePath => "Module Absolute Path"@,
            Fields::ModuleRelativeManifestPath => "Manifest Relative Path"@,
            Fields::ModuleAbsoluteManifestPath => "Manifest Absolute Path"@,
        }
    }

    /// The name of the variant, as it is written in the source.
    pub open spec fn name_text(self) -> Seq<char> {
        match self {
            Fields::Name => "Name"@,
            Fields::Version => "Version"@,
            Fields::GitVersion => "GitVersion"@,
            Fields::ModuleRelativePath => "ModuleRelativePath"@,
            Fields::ModuleAbsolutePath => "ModuleAbsolutePath"@,
            Fields::ModuleRelativeManifestPath => "ModuleRelativeManifestPath"@,
            Fields::ModuleAbsoluteManifestPath => "ModuleAbsoluteManifestPath"@,
        }
    }

    /// The words under which the fact is shown.
    pub fn label(&self) -> (text: &'static str)
        ensures
            text@ == self.label_text(),
    {
        match self {
            Fields::Name => "Name",
            Fields::Version => "Version",
            Fields::GitVersion => "Git Version",
            Fields::ModuleRelativePath => "Module Relative Path",
            Fields::ModuleAbsolutePath => "Module Absolute Path",
            Fields::ModuleRelativeManifestPath => "Manifest Relative Path",
            Fields::ModuleAbsoluteManifestPath => "Manifest Absolute Path",
        }
    }

    /// The name of the variant, as it is written in the source.
    pub fn name(&self) -> (text: &'static str)
        ensures
            text@ == self.name_text(),
    {
        match self {
            Fields::Name => "Name",
            Fields::Version => "Version",
            Fields::GitVersion => "GitVersion",
            Fields::ModuleRelativePath => "ModuleRelativePath",
            Fields::ModuleAbsolutePath => "ModuleAbsolutePath",
            Fields::ModuleRelativeManifestPath => "ModuleRelativeManifestPath",
            Fields::ModuleAbsoluteManifestPath => "ModuleAbsoluteManifestPath",
        }
    }

    /// The label as an owned string: what the field prints as.
    pub fn to_string(&self) -> (text: String)
        ensures
            text@ == self.label_text(),
    {
        String::from_str(self.label())
    }
}

/// A fact about a package together with its value, where it is known.
#[derive(Clone, Debug)]
pub struct FieldInfo {
    /// Which fact this is.
    pub field: Fields,
    /// The value of the fact, if it could be found.
    pub value: Option<String>,
}

} // verus!
