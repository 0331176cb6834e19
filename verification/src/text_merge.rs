use vstd::prelude::*;
use vstd::string::*;
use crate::error::ComposeError;
use crate::policy::MergePolicy;

verus! {

/// Makes `diffy::Patch` known as an opaque type: a patch is carried from the
/// call that computes it to the call that applies it, and never looked into.
#[verifier::external_type_specification]
#[verifier::external_body]
#[verifier::reject_recursive_types(T)]
pub struct ExPatch<'a, T: ToOwned + ?Sized>(diffy::Patch<'a, T>);

/// Makes `diffy::ApplyError` known as an opaque type: the error with which
/// `diffy::apply` refuses a patch.
#[verifier::external_type_specification]
#[verifier::external_body]
pub struct ExApplyError(diffy::ApplyError);

/// What a line-based patch holds: its hunks, as one text.
pub uninterp spec fn patch_text(patch: diffy::Patch<'_, str>) -> Seq<char>;

/// What the patch holds that `diffy::create_patch` computes from `original`
/// to `modified`.
pub uninterp spec fn diff_text(original: Seq<char>, modified: Seq<char>) -> Seq<char>;

/// What `diffy::apply` makes of `base` under a patch that holds `patch`: the
/// patched text, or nothing where a hunk of the patch finds no place in
/// `base`.
pub uninterp spec fn applied_text(base: Seq<char>, patch: Seq<char>) -> Option<Seq<char>>;

/// Calls `diffy::create_patch`, which computes the line-based diff from
/// `original` to `modified`. Taken on trust: what the patch holds depends on
/// the two texts alone.
#[verifier::external_body]
fn create_patch<'a>(original: &'a str, modified: &'a str) -> (patch: diffy::Patch<'a, str>)
    ensures
        patch_text(patch) == diff_text(original@, modified@),
{
    diffy::create_patch(original, modified)
}

/// Calls `diffy::apply`, which looks for the place of each hunk of the patch
/// in `base` and replaces it. Taken on trust: the result depends on the base
/// text and on what the patch holds alone; it is an error exactly where a
/// hunk finds no place; and a patch that was computed from this very base to
/// some text applies to the base and gives that text back.
#[verifier::external_body]
fn apply_patch(base: &str, patch: &diffy::Patch<'_, str>) -> (applied: Result<String, diffy::ApplyError>)
    ensures
        applied is Ok ==> applied_text(base@, patch_text(*patch)) == Some(applied->Ok_0@),
        applied is Err ==> applied_text(base@, patch_text(*patch)) is None,
        forall|m: Seq<char>|
            patch_text(*patch) == #[trigger] diff_text(base@, m) ==> (applied is Ok
                && applied->Ok_0@ == m),
{
    diffy::apply(base, patch)
}

/// The single line break that `Prepend` and `Append` put between two bodies.
pub open spec fn separator() -> Seq<char> {
    seq!['\n']
}

/// The text that a policy makes of a destination body and a source body.
/// A patch merge diffs the destination against the source and applies the
/// diff to that same destination, which reproduces the source.
pub open spec fn merged_text(destination: Seq<char>, source: Seq<char>, policy: MergePolicy) -> Seq<
    char,
> {
    match policy {
        MergePolicy::Overwrite => source,
        MergePolicy::SkipIfExists => destination,
        MergePolicy::Prepend => source + separator() + destination,
        MergePolicy::Append => destination + separator() + source,
        MergePolicy::PatchMerge => source,
    }
}

/// What an attempt to apply a patch amounts to: the patched text, or a
/// `PatchApplication` error where a hunk found no place.
pub open spec fn outcome_of(applied: Option<Seq<char>>, result: Result<String, ComposeError>) -> bool {
    match applied {
        Some(text) => result is Ok && result->Ok_0@ == text,
        None => result == Err::<String, ComposeError>(ComposeError::PatchApplication),
    }
}

/// Turns the answer of the patch engine into the library's own result: the
/// patched text is handed on unchanged, a refusal becomes `PatchApplication`.
pub fn patch_outcome(applied: Result<String, diffy::ApplyError>) -> (result: Result<
    String,
    ComposeError,
>)
    ensures
        applied is Ok ==> result == Ok::<String, ComposeError>(applied->Ok_0),
        applied is Err ==> result == Err::<String, ComposeError>(ComposeError::PatchApplication),
{
    match applied {
        Ok(text) => Ok(text),
        Err(_) => Err(ComposeError::PatchApplication),
    }
}

/// Computes the line-based diff from `baseline` to `source` and applies it to
/// `destination`. Where `destination` is the baseline itself the result is
/// `source`; where it has drifted from the baseline the diff may find no place
/// in it, and the error is returned instead of a partial text.
pub fn patch_merge(baseline: &str, destination: &str, source: &str) -> (result: Result<
    String,
    ComposeError,
>)
    ensures
        outcome_of(applied_text(destination@, diff_text(baseline@, source@)), result),
        baseline@ == destination@ ==> result is Ok && result->Ok_0@ == source@,
{
    let patch = create_patch(baseline, source);
    let applied = apply_patch(destination, &patch);
    patch_outcome(applied)
}

/// Merges two text bodies under a policy. Pure: nothing is read or written.
///
/// `Prepend` and `Append` join the bodies with exactly one line break, whether
/// or not either body already ends or begins with one. `PatchMerge` diffs the
/// destination against the source and applies the diff to the destination.
pub fn merge(destination_body: &str, source_body: &str, policy: MergePolicy) -> (result: Result<
    String,
    ComposeError,
>)
    ensures
        result is Ok,
        result->Ok_0@ == merged_text(destination_body@, source_body@, policy),
{
    match policy {
        MergePolicy::Overwrite => Ok(String::from_str(source_body)),
        MergePolicy::SkipIfExists => Ok(String::from_str(destination_body)),
        MergePolicy::Prepend => Ok(joined(source_body, destination_body)),
        MergePolicy::Append => Ok(joined(destination_body, source_body)),
        MergePolicy::PatchMerge => patch_merge(destination_body, destination_body, source_body),
    }
}

/// Applying `Append` or `Prepend` again with the same source is not
/// idempotent: the source is added a second time, so the second result
/// differs from the first.
pub proof fn lemma_reapplication_adds_again(
    destination: Seq<char>,
    source: Seq<char>,
    policy: MergePolicy,
)
    requires
        policy == MergePolicy::Append || policy == MergePolicy::Prepend,
    ensures
        merged_text(merged_text(destination, source, policy), source, policy) != merged_text(
            destination,
            source,
            policy,
        ),
        policy == MergePolicy::Append ==> merged_text(
            merged_text(destination, source, policy),
            source,
            policy,
        ) == destination + separator() + source + separator() + source,
        policy == MergePolicy::Prepend ==> merged_text(
            merged_text(destination, source, policy),
            source,
            policy,
        ) == source + separator() + (source + separator() + destination),
{
    let once = merged_text(destination, source, policy);
    let twice = merged_text(once, source, policy);
    assert(twice.len() == once.len() + 1 + source.len());
}

/// `first`, one line break, `second`.
fn joined(first: &str, second: &str) -> (text: String)
    ensures
        text@ == first@ + separator() + second@,
{
    let mut text = String::from_str(first);
    proof {
        reveal_strlit("\n");
        assert("\n"@ =~= separator());
    }
    text.append("\n");
    text.append(second);
    text
}

} // verus!
