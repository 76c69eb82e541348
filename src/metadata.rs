//! Parts of the `cargo metadata` description of a workspace.

use vstd::prelude::*;

verus! {

/// How a package depends on another.
#[derive(Debug, PartialEq, Eq)]
pub enum DependencyKind {
    Normal,
    Dev,
    Build,
    /// A kind this tool does not know, by its name.
    Unknown(String),
}

/// The kind of a Cargo target.
#[derive(Debug, PartialEq, Eq)]
pub enum TargetKind {
    Lib,
    Rlib,
    Dylib,
    ProcMacro,
    Bin,
    Example,
    Test,
    Bench,
    CustomBuild,
    /// A kind this tool does not know, by its name.
    Unknown(String),
}

/// A Cargo target: its kinds and its name (dashes become underscores for a library).
#[derive(Debug)]
pub struct Target {
    pub kind: Vec<TargetKind>,
    pub name: String,
}

} // verus!
