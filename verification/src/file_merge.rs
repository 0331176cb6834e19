use vstd::prelude::*;
use vstd::string::*;
use crate::error::ComposeError;
use crate::policy::{policy_of, AddonFileCopyType, MergePolicy};
use crate::text_merge::{merge, merged_text};

verus! {

/// What was found at a path when it was looked at.
#[derive(Debug, Clone, Copy, PartialEq, Eq, Structural)]
pub enum PathKind {
    /// Nothing is there, or it cannot be read.
    Missing,
    Directory,
    /// A regular file.
    File,
}

/// What is to be done with one source path and its destination.
#[derive(Debug, Clone, Copy, PartialEq, Eq, Structural)]
pub enum FileAction {
    /// Mirror the source directory below the destination and merge every
    /// regular file in it on its own, under the same policy.
    MirrorTree,
    /// Copy the source file byte for byte to the destination, creating the
    /// directories above it as needed.
    CopySource,
    /// Leave the destination untouched; no byte is written.
    Skip,
    /// Read both files as text, merge the bodies under the policy, and write
    /// the merged body to the destination in one piece.
    MergeText(MergePolicy),
}

/// The action that the state of the two paths and the policy call for.
pub open spec fn file_action(source: PathKind, destination_exists: bool, policy: MergePolicy) -> Result<
    FileAction,
    ComposeError,
> {
    match source {
        PathKind::Missing => Err(ComposeError::SourceNotFound),
        PathKind::Directory => Ok(FileAction::MirrorTree),
        PathKind::File => if !destination_exists {
            Ok(FileAction::CopySource)
        } else {
            match policy {
                MergePolicy::SkipIfExists => Ok(FileAction::Skip),
                MergePolicy::Overwrite => Ok(FileAction::CopySource),
                _ => Ok(FileAction::MergeText(policy)),
            }
        },
    }
}

/// Decides how a source path is brought to its destination. The policy only
/// matters where a regular file meets a destination that already exists.
pub fn copy_addon_file(
    source: PathKind,
    destination_exists: bool,
    mode: &Option<AddonFileCopyType>,
) -> (action: Result<FileAction, ComposeError>)
    ensures
        action == file_action(source, destination_exists, policy_of(*mode)),
{
    let policy = MergePolicy::resolve(mode);
    match source {
        PathKind::Missing => Err(ComposeError::SourceNotFound),
        PathKind::Directory => Ok(FileAction::MirrorTree),
        PathKind::File => {
            if !destination_exists {
                Ok(FileAction::CopySource)
            } else {
                match policy {
                    MergePolicy::SkipIfExists => Ok(FileAction::Skip),
                    MergePolicy::Overwrite => Ok(FileAction::CopySource),
                    _ => Ok(FileAction::MergeText(policy)),
                }
            }
        },
    }
}

/// The body that a regular file's destination holds once an action has been
/// carried out, given the body it held before, if it existed, and the body of
/// the source.
pub open spec fn content_left(
    action: FileAction,
    destination: Option<Seq<char>>,
    source: Seq<char>,
) -> Seq<char>
    recommends
        action != FileAction::MirrorTree,
        action != FileAction::CopySource ==> destination is Some,
{
    match action {
        FileAction::Skip => destination->Some_0,
        FileAction::MergeText(policy) => merged_text(destination->Some_0, source, policy),
        _ => source,
    }
}

/// The body that a policy calls for at the destination of a regular file:
/// the source where nothing was there, else the two bodies merged.
pub open spec fn content_due(
    destination: Option<Seq<char>>,
    source: Seq<char>,
    policy: MergePolicy,
) -> Seq<char> {
    match destination {
        None => source,
        Some(body) => merged_text(body, source, policy),
    }
}

/// For a regular file the action always succeeds and leaves at the
/// destination the body that the policy calls for. Text is merged only where
/// the destination exists and the policy combines two bodies, and then
/// under that very policy; a destination that is skipped keeps its body.
pub proof fn lemma_action_leaves_content_due(
    destination: Option<Seq<char>>,
    source: Seq<char>,
    policy: MergePolicy,
)
    ensures
        file_action(PathKind::File, destination is Some, policy) is Ok,
        content_left(
            file_action(PathKind::File, destination is Some, policy)->Ok_0,
            destination,
            source,
        ) == content_due(destination, source, policy),
        file_action(PathKind::File, destination is Some, policy) == Ok::<
            FileAction,
            ComposeError,
        >(FileAction::MergeText(policy)) <==> destination is Some && policy.combines_text(),
        file_action(PathKind::File, destination is Some, policy) == Ok::<
            FileAction,
            ComposeError,
        >(FileAction::Skip) ==> content_due(destination, source, policy) == destination->Some_0,
{
}

/// Where two entries write to one destination under `Overwrite`, the later
/// one wins: the destination holds the later source, whatever the earlier
/// entry left there.
pub proof fn lemma_last_write_wins(
    destination: Option<Seq<char>>,
    earlier: Seq<char>,
    later: Seq<char>,
    policy: MergePolicy,
)
    ensures
        content_due(
            Some(content_due(destination, earlier, policy)),
            later,
            MergePolicy::Overwrite,
        ) == later,
{
}

/// The body that is to be written to a destination, with its size.
#[derive(Debug)]
pub struct MergedFile {
    pub content: String,
    /// The number of bytes of `content` in UTF-8.
    pub bytes_written: u64,
}

/// Merges the bodies of a destination and a source file under a policy and
/// reports how many bytes the merged body takes.
pub fn merge_file_text(destination_body: &str, source_body: &str, policy: MergePolicy) -> (merged:
    Result<MergedFile, ComposeError>)
    ensures
        merged is Ok,
        merged->Ok_0.content@ == merged_text(destination_body@, source_body@, policy),
        merged->Ok_0.bytes_written == vstd::utf8::encode_utf8(merged->Ok_0.content@).len(),
{
    match merge(destination_body, source_body, policy) {
        Ok(content) => {
            let size = content.as_str().as_bytes().len();
            Ok(MergedFile { content, bytes_written: size as u64 })
        },
        Err(reason) => Err(reason),
    }
}

/// One item that is to be brought into a destination directory.
#[derive(Debug)]
pub struct SourceItem {
    pub path: String,
    pub kind: PathKind,
    /// The final component of `path`, where it has one.
    pub file_name: Option<String>,
}

/// What is to be done with one item of a list.
#[derive(Debug)]
pub enum ItemAction {
    /// Mirror the directory at this path below the destination directory.
    MirrorTree { source: String },
    /// Merge the file at this path into the file of the given name in the
    /// destination directory.
    MergeFile { source: String, file_name: String },
}

/// The plain content of an item.
pub open spec fn item_model(item: SourceItem) -> (Seq<char>, PathKind, Option<Seq<char>>) {
    (
        item.path@,
        item.kind,
        match item.file_name {
            Some(name) => Some(name@),
            None => None,
        },
    )
}

/// The plain content of an action on an item: whether it mirrors a tree, the
/// source path, and the file name where a file is merged.
pub open spec fn action_model(action: ItemAction) -> (Seq<char>, Option<Seq<char>>) {
    match action {
        ItemAction::MirrorTree { source } => (source@, None),
        ItemAction::MergeFile { source, file_name } => (source@, Some(file_name@)),
    }
}

/// An item that is no directory and has no final component cannot be placed
/// in the destination directory.
pub open spec fn nameless(item: SourceItem) -> bool {
    item.kind != PathKind::Directory && item.file_name is None
}

/// The action for an item that can be placed.
pub open spec fn placed(item: SourceItem) -> (Seq<char>, Option<Seq<char>>) {
    if item.kind == PathKind::Directory {
        (item.path@, None)
    } else {
        (item.path@, Some(item.file_name->Some_0@))
    }
}

/// The actions for a list of items, and the reason for which the list cannot
/// be finished, if there is one.
#[derive(Debug)]
pub struct ItemPlan {
    pub actions: Vec<ItemAction>,
    pub failure: Option<ComposeError>,
}

/// Plans how the items are brought into a destination directory, in their
/// order. The plan ends before the first item that has no final component;
/// the items before it are still to be carried out, and the run then fails
/// with `InvalidSourceName`.
pub fn copy_addon_items(items: &Vec<SourceItem>) -> (plan: ItemPlan)
    ensures
        plan.actions@.len() <= items@.len(),
        forall|i: int| 0 <= i < plan.actions@.len() ==> !nameless(#[trigger] items@[i]),
        forall|i: int|
            0 <= i < plan.actions@.len() ==> action_model(#[trigger] plan.actions@[i]) == placed(
                items@[i],
            ),
        plan.failure is None <==> plan.actions@.len() == items@.len(),
        plan.failure is Some ==> plan.failure == Some(ComposeError::InvalidSourceName)
            && nameless(items@[plan.actions@.len() as int]),
{
    let mut actions: Vec<ItemAction> = Vec::new();
    let mut i: usize = 0;
    while i < items.len()
        invariant
            i <= items@.len(),
            actions@.len() == i,
            forall|j: int| 0 <= j < i ==> !nameless(#[trigger] items@[j]),
            forall|j: int|
                0 <= j < i ==> action_model(#[trigger] actions@[j]) == placed(items@[j]),
        decreases items@.len() - i,
    {
        let source = items[i].path.clone();
        match items[i].kind {
            PathKind::Directory => {
                actions.push(ItemAction::MirrorTree { source });
            },
            _ => match &items[i].file_name {
                Some(name) => {
                    actions.push(ItemAction::MergeFile { source, file_name: name.clone() });
                },
                None => {
                    return ItemPlan { actions, failure: Some(ComposeError::InvalidSourceName) };
                },
            },
        }
        i += 1;
    }
    ItemPlan { actions, failure: None }
}

} // verus!
