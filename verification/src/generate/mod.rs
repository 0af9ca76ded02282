//! Rendering of the four PHP helper files from a contract.

pub mod ide_helper;
pub mod options;
pub mod phpstorm_meta;
pub mod xfcp;

use crate::contract::Contract;
use crate::text::str_eq;
use vstd::prelude::*;

verus! {

/// The first lines of every generated file.
pub open spec fn banner_head() -> Seq<char> {
    "<?php\n\n/**\n * Generated by xf-typegen. Do not edit; run `xf-typegen generate` again instead.\n"@
}

/// The file header: the PHP open tag and a doc comment that holds `extra`.
pub open spec fn banner_spec(extra: Seq<char>) -> Seq<char> {
    banner_head() + extra + " */\n\n"@
}

/// Writes the file header with `extra` inside its doc comment.
pub fn banner(extra: &str) -> (out: String)
    ensures
        out@ == banner_spec(extra@),
{
    let mut out = String::from_str(
        "<?php\n\n/**\n * Generated by xf-typegen. Do not edit; run `xf-typegen generate` again instead.\n",
    );
    out.append(extra);
    out.append(" */\n\n");
    out
}

/// The helper files that can be generated.
#[derive(Debug, Clone, Copy, PartialEq, Eq, Structural)]
pub enum Target {
    IdeHelper,
    PhpstormMeta,
    Xfcp,
    Options,
}

/// How entity `@property` stubs are attached to the entity classes.
#[derive(Debug, Clone, Copy, PartialEq, Eq, Structural)]
pub enum EntityMode {
    /// Redeclare each entity class with its properties.
    Redeclare,
    /// Emit `XFIDEHelper\Entity_<id>` classes for a `@mixin` line in the entity files.
    Mixin,
}

/// The target named `name` on the command line.
pub open spec fn parse_target_spec(name: Seq<char>) -> Option<Target> {
    if name == "ide-helper"@ {
        Some(Target::IdeHelper)
    } else if name == "phpstorm-meta"@ {
        Some(Target::PhpstormMeta)
    } else if name == "xfcp"@ {
        Some(Target::Xfcp)
    } else if name == "options"@ {
        Some(Target::Options)
    } else {
        None
    }
}

/// The file name that a target is written to.
pub open spec fn filename_spec(t: Target) -> Seq<char> {
    match t {
        Target::IdeHelper => "_ide_helper.php"@,
        Target::PhpstormMeta => ".phpstorm.meta.php"@,
        Target::Xfcp => "_ide_helper_xfcp.php"@,
        Target::Options => "_ide_helper_options.php"@,
    }
}

/// Every target, in the order they are generated by default.
pub open spec fn all_targets_spec() -> Seq<Target> {
    seq![Target::IdeHelper, Target::PhpstormMeta, Target::Xfcp, Target::Options]
}

impl Target {
    /// Every target, in the order they are generated by default.
    pub fn all() -> (v: Vec<Target>)
        ensures
            v@ == all_targets_spec(),
    {
        let mut v = Vec::new();
        v.push(Target::IdeHelper);
        v.push(Target::PhpstormMeta);
        v.push(Target::Xfcp);
        v.push(Target::Options);
        assert(v@ =~= all_targets_spec());
        v
    }

    /// The target named `name`, or `None` for an unknown name.
    pub fn parse(name: &str) -> (r: Option<Target>)
        ensures
            r == parse_target_spec(name@),
    {
        if str_eq(name, "ide-helper") {
            Some(Target::IdeHelper)
        } else if str_eq(name, "phpstorm-meta") {
            Some(Target::PhpstormMeta)
        } else if str_eq(name, "xfcp") {
            Some(Target::Xfcp)
        } else if str_eq(name, "options") {
            Some(Target::Options)
        } else {
            None
        }
    }

    /// The name of the file the target is written to.
    pub fn filename(self) -> (r: &'static str)
        ensures
            r@ == filename_spec(self),
    {
        match self {
            Target::IdeHelper => "_ide_helper.php",
            Target::PhpstormMeta => ".phpstorm.meta.php",
            Target::Xfcp => "_ide_helper_xfcp.php",
            Target::Options => "_ide_helper_options.php",
        }
    }
}

/// The entity mode named `name` on the command line.
pub open spec fn parse_entity_mode_spec(name: Seq<char>) -> Option<EntityMode> {
    if name == "redeclare"@ {
        Some(EntityMode::Redeclare)
    } else if name == "mixin"@ {
        Some(EntityMode::Mixin)
    } else {
        None
    }
}

impl EntityMode {
    /// The entity mode named `name`, or `None` for an unknown name.
    pub fn parse(name: &str) -> (r: Option<EntityMode>)
        ensures
            r == parse_entity_mode_spec(name@),
    {
        if str_eq(name, "redeclare") {
            Some(EntityMode::Redeclare)
        } else if str_eq(name, "mixin") {
            Some(EntityMode::Mixin)
        } else {
            None
        }
    }
}

/// A rendered file: where it goes and what it holds.
#[derive(Debug)]
pub struct GeneratedFile {
    pub filename: &'static str,
    pub contents: String,
}

/// The text of a target's file for a contract.
pub open spec fn render_spec(contract: Contract, target: Target, mode: EntityMode) -> Seq<char> {
    match target {
        Target::IdeHelper => ide_helper::render_spec(contract, mode),
        Target::PhpstormMeta => phpstorm_meta::render_spec(contract),
        Target::Xfcp => xfcp::render_spec(contract),
        Target::Options => options::render_spec(contract),
    }
}

/// Renders one target.
pub fn render(contract: &Contract, target: Target, mode: EntityMode) -> (f: GeneratedFile)
    ensures
        f.filename@ == filename_spec(target),
        f.contents@ == render_spec(*contract, target, mode),
{
    let contents = match target {
        Target::IdeHelper => ide_helper::render(contract, mode),
        Target::PhpstormMeta => phpstorm_meta::render(contract),
        Target::Xfcp => xfcp::render(contract),
        Target::Options => options::render(contract),
    };
    GeneratedFile { filename: target.filename(), contents }
}

/// Renders each of `targets`, in the order given.
pub fn render_all(contract: &Contract, targets: &[Target], mode: EntityMode) -> (files: Vec<
    GeneratedFile,
>)
    ensures
        files@.len() == targets@.len(),
        forall|i: int|
            0 <= i < targets@.len() ==> {
                &&& (#[trigger] files@[i]).filename@ == filename_spec(targets@[i])
                &&& files@[i].contents@ == render_spec(*contract, targets@[i], mode)
            },
{
    let mut files: Vec<GeneratedFile> = Vec::new();
    let n = targets.len();
    let mut i: usize = 0;
    while i < n
        invariant
            n == targets@.len(),
            i <= n,
            files@.len() == i,
            forall|j: int|
                0 <= j < i ==> {
                    &&& (#[trigger] files@[j]).filename@ == filename_spec(targets@[j])
                    &&& files@[j].contents@ == render_spec(*contract, targets@[j], mode)
                },
        decreases n - i,
    {
        files.push(render(contract, targets[i], mode));
        i = i + 1;
    }
    files
}

} // verus!
