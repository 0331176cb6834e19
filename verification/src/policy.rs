use vstd::prelude::*;
use crate::string_map::{compare_keys, KeyOrder};

verus! {

/// The copy mode that an addon entry may declare for its files.
#[derive(Debug, Clone, Copy, PartialEq, Eq, Structural)]
pub enum AddonFileCopyType {
    /// Replace an existing file with the addon's file.
    Overwrite,
    /// Put the addon's text in front of the existing text.
    Prepend,
    /// Put the addon's text behind the existing text.
    Append,
    /// Leave an existing file as it is.
    SkipIfExists,
}

/// The mode that a name in a descriptor stands for, if it stands for one.
pub open spec fn mode_named(name: Seq<char>) -> Option<AddonFileCopyType> {
    if name == "overwrite"@ {
        Some(AddonFileCopyType::Overwrite)
    } else if name == "prepend"@ {
        Some(AddonFileCopyType::Prepend)
    } else if name == "append"@ {
        Some(AddonFileCopyType::Append)
    } else if name == "skip_if_exists"@ {
        Some(AddonFileCopyType::SkipIfExists)
    } else {
        None
    }
}

impl AddonFileCopyType {
    /// Reads a mode from the name that a descriptor gives it.
    pub fn parse(name: &str) -> (mode: Option<AddonFileCopyType>)
        ensures
            mode == mode_named(name@),
    {
        if compare_keys(name, "overwrite") == KeyOrder::Same {
            Some(AddonFileCopyType::Overwrite)
        } else if compare_keys(name, "prepend") == KeyOrder::Same {
            Some(AddonFileCopyType::Prepend)
        } else if compare_keys(name, "append") == KeyOrder::Same {
            Some(AddonFileCopyType::Append)
        } else if compare_keys(name, "skip_if_exists") == KeyOrder::Same {
            Some(AddonFileCopyType::SkipIfExists)
        } else {
            None
        }
    }
}

/// The rule that governs how one entry's content is combined with what the
/// destination already holds. The set is closed; an entry that declares no
/// mode is governed by `PatchMerge`.
#[derive(Debug, Clone, Copy, PartialEq, Eq, Structural)]
pub enum MergePolicy {
    Overwrite,
    SkipIfExists,
    Prepend,
    Append,
    PatchMerge,
}

/// The policy that a declared mode stands for.
pub open spec fn policy_of(mode: Option<AddonFileCopyType>) -> MergePolicy {
    match mode {
        Some(AddonFileCopyType::Overwrite) => MergePolicy::Overwrite,
        Some(AddonFileCopyType::SkipIfExists) => MergePolicy::SkipIfExists,
        Some(AddonFileCopyType::Prepend) => MergePolicy::Prepend,
        Some(AddonFileCopyType::Append) => MergePolicy::Append,
        None => MergePolicy::PatchMerge,
    }
}

impl MergePolicy {
    /// Resolves the mode that an entry declares, once, to the policy that
    /// governs the entry.
    pub fn resolve(mode: &Option<AddonFileCopyType>) -> (policy: MergePolicy)
        ensures
            policy == policy_of(*mode),
    {
        match mode {
            Some(AddonFileCopyType::Overwrite) => MergePolicy::Overwrite,
            Some(AddonFileCopyType::SkipIfExists) => MergePolicy::SkipIfExists,
            Some(AddonFileCopyType::Prepend) => MergePolicy::Prepend,
            Some(AddonFileCopyType::Append) => MergePolicy::Append,
            None => MergePolicy::PatchMerge,
        }
    }

    /// Whether the policy combines two text bodies, so that both files have
    /// to be read as text before anything is written.
    pub open spec fn combines_text(self) -> bool {
        self == MergePolicy::Prepend || self == MergePolicy::Append || self
            == MergePolicy::PatchMerge
    }

    /// Executable form of [`MergePolicy::combines_text`].
    pub fn needs_both_bodies(&self) -> (needed: bool)
        ensures
            needed == self.combines_text(),
    {
        match self {
            MergePolicy::Prepend => true,
            MergePolicy::Append => true,
            MergePolicy::PatchMerge => true,
            _ => false,
        }
    }
}

impl Default for MergePolicy {
    fn default() -> (policy: MergePolicy)
        ensures
            policy == MergePolicy::PatchMerge,
    {
        MergePolicy::PatchMerge
    }
}

} // verus!
