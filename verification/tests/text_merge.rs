use tada_compose::error::ComposeError;
use tada_compose::policy::{AddonFileCopyType, MergePolicy};
use tada_compose::text_merge::{merge, patch_merge, patch_outcome};

#[test]
fn overwrite_returns_source() {
    assert_eq!(merge("old\n", "new\n", MergePolicy::Overwrite), Ok("new\n".to_string()));
    assert_eq!(merge("", "", MergePolicy::Overwrite), Ok(String::new()));
    assert_eq!(merge("kept?", "", MergePolicy::Overwrite), Ok(String::new()));
}

#[test]
fn skip_if_exists_returns_destination() {
    assert_eq!(merge("old\n", "new\n", MergePolicy::SkipIfExists), Ok("old\n".to_string()));
    assert_eq!(merge("", "new", MergePolicy::SkipIfExists), Ok(String::new()));
}

#[test]
fn append_puts_source_behind_destination() {
    assert_eq!(merge("d", "s", MergePolicy::Append), Ok("d\ns".to_string()));
    assert_eq!(merge("", "", MergePolicy::Append), Ok("\n".to_string()));
}

#[test]
fn prepend_puts_source_in_front_of_destination() {
    assert_eq!(merge("d", "s", MergePolicy::Prepend), Ok("s\nd".to_string()));
    assert_eq!(merge("", "", MergePolicy::Prepend), Ok("\n".to_string()));
}

#[test]
fn separator_is_added_once_whatever_the_bodies_end_with() {
    assert_eq!(merge("d\n", "\ns\n", MergePolicy::Append), Ok("d\n\n\ns\n".to_string()));
    assert_eq!(merge("\nd", "s\n", MergePolicy::Prepend), Ok("s\n\n\nd".to_string()));
}

#[test]
fn patch_merge_reproduces_source() {
    let destination = "first\nsecond\nthird\n";
    let source = "first\n2nd\nthird\nfourth\n";
    assert_eq!(merge(destination, source, MergePolicy::PatchMerge), Ok(source.to_string()));
}

#[test]
fn patch_merge_reproduces_source_on_edge_bodies() {
    let bodies = vec![
        "",
        "\n",
        "one line without end",
        "one line\n",
        "a\r\nb\r\n",
        "a\nb\nc\nd\ne\nf\ng\nh\ni\nj\nk\nl\nm\nn\no\np\n",
        "a\nB\nc\nd\ne\nf\ng\nh\ni\nj\nk\nl\nm\nN\no\np",
        "caf\u{e9}\n\u{1f389}\n",
    ];
    for destination in &bodies {
        for source in &bodies {
            assert_eq!(
                merge(destination, source, MergePolicy::PatchMerge),
                Ok(source.to_string())
            );
        }
    }
}

#[test]
fn default_policy_is_patch_merge() {
    assert_eq!(MergePolicy::default(), MergePolicy::PatchMerge);
    assert_eq!(MergePolicy::resolve(&None), MergePolicy::PatchMerge);
}

#[test]
fn declared_modes_resolve_to_their_policies() {
    assert_eq!(MergePolicy::resolve(&Some(AddonFileCopyType::Overwrite)), MergePolicy::Overwrite);
    assert_eq!(MergePolicy::resolve(&Some(AddonFileCopyType::Prepend)), MergePolicy::Prepend);
    assert_eq!(MergePolicy::resolve(&Some(AddonFileCopyType::Append)), MergePolicy::Append);
    assert_eq!(
        MergePolicy::resolve(&Some(AddonFileCopyType::SkipIfExists)),
        MergePolicy::SkipIfExists
    );
}

#[test]
fn only_three_policies_need_both_bodies() {
    assert!(MergePolicy::Prepend.needs_both_bodies());
    assert!(MergePolicy::Append.needs_both_bodies());
    assert!(MergePolicy::PatchMerge.needs_both_bodies());
    assert!(!MergePolicy::Overwrite.needs_both_bodies());
    assert!(!MergePolicy::SkipIfExists.needs_both_bodies());
}

#[test]
fn patch_against_baseline_keeps_later_edits_of_destination() {
    let baseline = "a\nb\nc\n";
    let source = "a\nB\nc\n";
    let destination = "a\nb\nc\nd\n";
    assert_eq!(patch_merge(baseline, destination, source), Ok("a\nB\nc\nd\n".to_string()));
}

#[test]
fn patch_against_untouched_baseline_gives_source() {
    assert_eq!(patch_merge("x\ny\n", "x\ny\n", "x\nz\n"), Ok("x\nz\n".to_string()));
    assert_eq!(patch_merge("same\n", "same\n", "same\n"), Ok("same\n".to_string()));
}

#[test]
fn patch_that_finds_no_place_is_an_error() {
    let baseline = "a\nb\nc\n";
    let source = "a\nB\nc\n";
    let destination = "entirely\ndifferent\ntext\n";
    assert_eq!(patch_merge(baseline, destination, source), Err(ComposeError::PatchApplication));
}

#[test]
fn patch_outcome_hands_text_on_and_maps_refusal() {
    let patch = diffy::create_patch("a\nb\n", "a\nc\n");
    let applied = diffy::apply("a\nb\n", &patch);
    assert_eq!(patch_outcome(applied), Ok("a\nc\n".to_string()));
    let refused = diffy::apply("q\nr\n", &patch);
    assert!(refused.is_err());
    assert_eq!(patch_outcome(refused), Err(ComposeError::PatchApplication));
}

#[test]
fn reapplying_append_adds_the_source_again() {
    let once = merge("readme", "addon", MergePolicy::Append).unwrap();
    let twice = merge(&once, "addon", MergePolicy::Append).unwrap();
    assert_eq!(once, "readme\naddon");
    assert_eq!(twice, "readme\naddon\naddon");
    assert_ne!(once, twice);
}

#[test]
fn reapplying_prepend_adds_the_source_again() {
    let once = merge("readme", "addon", MergePolicy::Prepend).unwrap();
    let twice = merge(&once, "addon", MergePolicy::Prepend).unwrap();
    assert_eq!(once, "addon\nreadme");
    assert_eq!(twice, "addon\naddon\nreadme");
    assert_ne!(once, twice);
}

#[test]
fn reapplying_patch_merge_gives_the_source_again() {
    let once = merge("old\n", "new\n", MergePolicy::PatchMerge).unwrap();
    let twice = merge(&once, "new\n", MergePolicy::PatchMerge).unwrap();
    assert_eq!(once, "new\n");
    assert_eq!(twice, "new\n");
}

#[test]
fn errors_before_the_first_write_leave_nothing_behind() {
    assert!(!ComposeError::Discovery.leaves_partial_destination());
    assert!(!ComposeError::NoTemplatesFound.leaves_partial_destination());
    assert!(!ComposeError::DescriptorParse.leaves_partial_destination());
    assert!(ComposeError::SourceNotFound.leaves_partial_destination());
    assert!(ComposeError::InvalidSourceName.leaves_partial_destination());
    assert!(ComposeError::PatchApplication.leaves_partial_destination());
    assert!(ComposeError::ManifestSerialization.leaves_partial_destination());
    assert!(ComposeError::ManifestWrite.leaves_partial_destination());
}

#[test]
fn every_error_has_its_own_message() {
    let errors = vec![
        ComposeError::Discovery,
        ComposeError::NoTemplatesFound,
        ComposeError::DescriptorParse,
        ComposeError::SourceNotFound,
        ComposeError::InvalidSourceName,
        ComposeError::PatchApplication,
        ComposeError::ManifestSerialization,
        ComposeError::ManifestWrite,
    ];
    for (i, one) in errors.iter().enumerate() {
        assert!(!one.message().is_empty());
        for other in &errors[..i] {
            assert_ne!(one.message(), other.message());
        }
    }
    assert_eq!(ComposeError::NoTemplatesFound.message(), "no templates found");
    assert_eq!(ComposeError::PatchApplication.message(), "a patch could not be applied");
}
