use tada_compose::manifest::{classify_field, merge_manifests, ManifestField, PackageJson};
use tada_compose::string_map::StringMap;

fn pair(key: &str, value: &str) -> (String, String) {
    (key.to_string(), value.to_string())
}

fn section(pairs: &[(&str, &str)]) -> StringMap {
    let mut map = StringMap::new();
    for (key, value) in pairs {
        map.insert(key.to_string(), value.to_string());
    }
    map
}

fn fragment(scripts: &[(&str, &str)], deps: &[(&str, &str)], dev: &[(&str, &str)]) -> PackageJson {
    PackageJson::new(
        "fragment".to_string(),
        Some(section(scripts)),
        Some(section(deps)),
        Some(section(dev)),
        Vec::new(),
    )
}

#[test]
fn missing_sections_are_empty() {
    let manifest = PackageJson::new("bare".to_string(), None, None, None, Vec::new());
    assert_eq!(manifest.name, "bare");
    assert!(manifest.scripts.is_empty());
    assert!(manifest.dependencies.is_empty());
    assert!(manifest.dev_dependencies.is_empty());
    assert!(manifest.unrecognized.is_empty());
}

#[test]
fn later_fragment_wins_on_the_same_key() {
    let mut manifest = fragment(&[("a", "1")], &[], &[]);
    manifest.merge_fragment(&fragment(&[("a", "2")], &[], &[]));
    assert_eq!(manifest.scripts.entries(), &vec![pair("a", "2")]);
}

#[test]
fn fragment_merge_unites_every_section() {
    let mut manifest = fragment(&[("build", "x")], &[("react", "18")], &[("jest", "29")]);
    let addon = fragment(&[("lint", "y")], &[("react", "19"), ("zod", "3")], &[("eslint", "9")]);
    manifest.merge_fragment(&addon);
    assert_eq!(manifest.scripts.entries(), &vec![pair("build", "x"), pair("lint", "y")]);
    assert_eq!(manifest.dependencies.entries(), &vec![pair("react", "19"), pair("zod", "3")]);
    assert_eq!(manifest.dev_dependencies.entries(), &vec![pair("eslint", "9"), pair("jest", "29")]);
}

#[test]
fn fragment_does_not_touch_name_or_unrecognized_fields() {
    let mut manifest = PackageJson::new(
        "base".to_string(),
        None,
        None,
        None,
        vec![pair("version", "\"1.0.0\""), pair("private", "true")],
    );
    let addon = PackageJson::new(
        "addon".to_string(),
        Some(section(&[("lint", "y")])),
        None,
        None,
        vec![pair("license", "\"MIT\"")],
    );
    manifest.merge_fragment(&addon);
    assert_eq!(manifest.name, "base");
    assert_eq!(manifest.unrecognized, vec![pair("version", "\"1.0.0\""), pair("private", "true")]);
    assert_eq!(manifest.scripts.entries(), &vec![pair("lint", "y")]);
}

#[test]
fn disjoint_fragments_merge_the_same_in_either_order() {
    let one = || fragment(&[("a", "1")], &[("x", "1")], &[]);
    let other = || fragment(&[("b", "2")], &[("y", "2")], &[("z", "3")]);
    let mut forward = fragment(&[("base", "0")], &[], &[]);
    forward.merge_fragment(&one());
    forward.merge_fragment(&other());
    let mut backward = fragment(&[("base", "0")], &[], &[]);
    backward.merge_fragment(&other());
    backward.merge_fragment(&one());
    assert_eq!(forward.scripts.entries(), backward.scripts.entries());
    assert_eq!(forward.dependencies.entries(), backward.dependencies.entries());
    assert_eq!(forward.dev_dependencies.entries(), backward.dev_dependencies.entries());
    assert_eq!(
        forward.scripts.entries(),
        &vec![pair("a", "1"), pair("b", "2"), pair("base", "0")]
    );
}

#[test]
fn grouping_of_merges_does_not_matter() {
    let first = || fragment(&[("a", "1"), ("b", "1")], &[], &[]);
    let second = || fragment(&[("b", "2"), ("c", "2")], &[], &[]);
    let third = || fragment(&[("c", "3"), ("d", "3")], &[], &[]);
    let mut left = first();
    left.merge_fragment(&second());
    left.merge_fragment(&third());
    let mut tail = second();
    tail.merge_fragment(&third());
    let mut right = first();
    right.merge_fragment(&tail);
    assert_eq!(left.scripts.entries(), right.scripts.entries());
    assert_eq!(
        left.scripts.entries(),
        &vec![pair("a", "1"), pair("b", "2"), pair("c", "3"), pair("d", "3")]
    );
}

#[test]
fn overlapping_fragments_depend_on_order() {
    let mut forward = fragment(&[], &[], &[]);
    forward.merge_fragment(&fragment(&[("a", "1")], &[], &[]));
    forward.merge_fragment(&fragment(&[("a", "2")], &[], &[]));
    let mut backward = fragment(&[], &[], &[]);
    backward.merge_fragment(&fragment(&[("a", "2")], &[], &[]));
    backward.merge_fragment(&fragment(&[("a", "1")], &[], &[]));
    assert_eq!(forward.scripts.get("a"), Some(&"2".to_string()));
    assert_eq!(backward.scripts.get("a"), Some(&"1".to_string()));
}

#[test]
fn project_manifest_is_named_after_the_destination() {
    let base = PackageJson::new(
        "template".to_string(),
        Some(section(&[("build", "x")])),
        None,
        None,
        vec![pair("version", "\"0.0.1\"")],
    );
    let fragments = vec![fragment(&[("lint", "y")], &[], &[])];
    let project = merge_manifests(base, &fragments, Some("my-app".to_string()), "react");
    assert_eq!(project.name, "my-app");
    assert_eq!(project.scripts.entries(), &vec![pair("build", "x"), pair("lint", "y")]);
    assert_eq!(project.unrecognized, vec![pair("version", "\"0.0.1\"")]);
}

#[test]
fn project_manifest_falls_back_to_the_template_name() {
    let base = PackageJson::new("template".to_string(), None, None, None, Vec::new());
    let project = merge_manifests(base, &Vec::new(), None, "react");
    assert_eq!(project.name, "react");
    assert!(project.scripts.is_empty());
}

#[test]
fn later_addon_overrides_earlier_addon_and_template() {
    let base = fragment(&[("build", "template")], &[("dep", "0")], &[]);
    let fragments = vec![
        fragment(&[("build", "first")], &[("dep", "1")], &[]),
        fragment(&[("build", "second")], &[], &[]),
    ];
    let project = merge_manifests(base, &fragments, Some("app".to_string()), "t");
    assert_eq!(project.scripts.get("build"), Some(&"second".to_string()));
    assert_eq!(project.dependencies.get("dep"), Some(&"1".to_string()));
}

#[test]
fn finalize_name_prefers_the_destination() {
    let mut manifest = fragment(&[("a", "1")], &[], &[]);
    manifest.finalize_name(Some("dest".to_string()), "tpl");
    assert_eq!(manifest.name, "dest");
    manifest.finalize_name(None, "tpl");
    assert_eq!(manifest.name, "tpl");
    assert_eq!(manifest.scripts.entries(), &vec![pair("a", "1")]);
}

#[test]
fn fields_are_recognized_by_their_exact_keys() {
    assert_eq!(classify_field("name"), ManifestField::Name);
    assert_eq!(classify_field("scripts"), ManifestField::Scripts);
    assert_eq!(classify_field("dependencies"), ManifestField::Dependencies);
    assert_eq!(classify_field("devDependencies"), ManifestField::DevDependencies);
    assert_eq!(classify_field("version"), ManifestField::Unrecognized);
    assert_eq!(classify_field("dev_dependencies"), ManifestField::Unrecognized);
    assert_eq!(classify_field("Name"), ManifestField::Unrecognized);
    assert_eq!(classify_field(""), ManifestField::Unrecognized);
}
