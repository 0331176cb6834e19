use vstd::prelude::*;
use vstd::string::*;
use crate::string_map::{compare_keys, pairs_of, KeyOrder, StringMap};

verus! {

/// What a manifest says, as plain mathematical values.
pub struct ManifestModel {
    pub name: Seq<char>,
    pub scripts: Map<Seq<char>, Seq<char>>,
    pub dependencies: Map<Seq<char>, Seq<char>>,
    pub dev_dependencies: Map<Seq<char>, Seq<char>>,
    /// Top-level fields that the model does not interpret: each a field name
    /// with its value as raw text, in the order in which they were declared.
    pub unrecognized: Seq<(Seq<char>, Seq<char>)>,
}

/// The union of two sections: every key of either; where both hold a key,
/// the value of the later one.
pub open spec fn merged_section(
    earlier: Map<Seq<char>, Seq<char>>,
    later: Map<Seq<char>, Seq<char>>,
) -> Map<Seq<char>, Seq<char>> {
    earlier.union_prefer_right(later)
}

/// The manifest that arises when `fragment` is merged into `base`: the three
/// sections are united, the fragment winning where keys collide; the name and
/// the unrecognized fields are those of `base`.
pub open spec fn merged_manifest(base: ManifestModel, fragment: ManifestModel) -> ManifestModel {
    ManifestModel {
        name: base.name,
        scripts: merged_section(base.scripts, fragment.scripts),
        dependencies: merged_section(base.dependencies, fragment.dependencies),
        dev_dependencies: merged_section(base.dev_dependencies, fragment.dev_dependencies),
        unrecognized: base.unrecognized,
    }
}

/// The manifest that arises when the fragments are merged into `base` one
/// after the other, first to last.
pub open spec fn merged_all(base: ManifestModel, fragments: Seq<ManifestModel>) -> ManifestModel
    decreases fragments.len(),
{
    if fragments.len() == 0 {
        base
    } else {
        merged_manifest(merged_all(base, fragments.drop_last()), fragments.last())
    }
}

/// The name of the finished project: the last component of the destination
/// path where it has one, else the name of the template.
pub open spec fn final_name(destination_name: Option<Seq<char>>, template_name: Seq<char>) -> Seq<
    char,
> {
    match destination_name {
        Some(name) => name,
        None => template_name,
    }
}

/// What a top-level field of a manifest file is read as.
#[derive(Debug, Clone, Copy, PartialEq, Eq, Structural)]
pub enum ManifestField {
    Name,
    Scripts,
    Dependencies,
    DevDependencies,
    /// Any other field: carried along, never interpreted.
    Unrecognized,
}

/// What the field of the given key is read as.
pub open spec fn field_named(key: Seq<char>) -> ManifestField {
    if key == "name"@ {
        ManifestField::Name
    } else if key == "scripts"@ {
        ManifestField::Scripts
    } else if key == "dependencies"@ {
        ManifestField::Dependencies
    } else if key == "devDependencies"@ {
        ManifestField::DevDependencies
    } else {
        ManifestField::Unrecognized
    }
}

/// Tells what a top-level field of a manifest file is read as, by its key.
pub fn classify_field(key: &str) -> (field: ManifestField)
    ensures
        field == field_named(key@),
{
    if compare_keys(key, "name") == KeyOrder::Same {
        ManifestField::Name
    } else if compare_keys(key, "scripts") == KeyOrder::Same {
        ManifestField::Scripts
    } else if compare_keys(key, "dependencies") == KeyOrder::Same {
        ManifestField::Dependencies
    } else if compare_keys(key, "devDependencies") == KeyOrder::Same {
        ManifestField::DevDependencies
    } else {
        ManifestField::Unrecognized
    }
}

/// A project manifest, or the fragment of one that an addon contributes.
#[derive(Debug)]
pub struct PackageJson {
    pub name: String,
    pub scripts: StringMap,
    pub dependencies: StringMap,
    pub dev_dependencies: StringMap,
    /// Top-level fields that are carried along untouched: each a field name
    /// with its value as raw text, in declared order.
    pub unrecognized: Vec<(String, String)>,
}

impl View for PackageJson {
    type V = ManifestModel;

    open spec fn view(&self) -> ManifestModel {
        ManifestModel {
            name: self.name@,
            scripts: self.scripts@,
            dependencies: self.dependencies@,
            dev_dependencies: self.dev_dependencies@,
            unrecognized: pairs_of(self.unrecognized@),
        }
    }
}

/// The section that was declared, or an empty one where none was.
pub open spec fn section_or_empty(section: Option<StringMap>) -> Map<Seq<char>, Seq<char>> {
    match section {
        Some(map) => map@,
        None => Map::empty(),
    }
}

fn declared_or_empty(section: Option<StringMap>) -> (map: StringMap)
    ensures
        map@ == section_or_empty(section),
{
    match section {
        Some(map) => map,
        None => StringMap::new(),
    }
}

impl PackageJson {
    /// Builds a manifest from its parts. A section that is missing counts as
    /// an empty mapping.
    pub fn new(
        name: String,
        scripts: Option<StringMap>,
        dependencies: Option<StringMap>,
        dev_dependencies: Option<StringMap>,
        unrecognized: Vec<(String, String)>,
    ) -> (manifest: PackageJson)
        ensures
            manifest@ == (ManifestModel {
                name: name@,
                scripts: section_or_empty(scripts),
                dependencies: section_or_empty(dependencies),
                dev_dependencies: section_or_empty(dev_dependencies),
                unrecognized: pairs_of(unrecognized@),
            }),
    {
        PackageJson {
            name,
            scripts: declared_or_empty(scripts),
            dependencies: declared_or_empty(dependencies),
            dev_dependencies: declared_or_empty(dev_dependencies),
            unrecognized,
        }
    }

    /// Merges an addon's fragment into this manifest. Only the three sections
    /// change; the fragment's name and unrecognized fields are not taken over.
    pub fn merge_fragment(&mut self, fragment: &PackageJson)
        ensures
            final(self)@ == merged_manifest(old(self)@, fragment@),
    {
        self.scripts.merge_from(&fragment.scripts);
        self.dependencies.merge_from(&fragment.dependencies);
        self.dev_dependencies.merge_from(&fragment.dev_dependencies);
    }

    /// Sets the name of the finished project.
    pub fn finalize_name(&mut self, destination_name: Option<String>, template_name: &str)
        ensures
            final(self)@ == (ManifestModel {
                name: final_name(
                    match destination_name {
                        Some(name) => Some(name@),
                        None => None,
                    },
                    template_name@,
                ),
                ..old(self)@
            }),
    {
        match destination_name {
            Some(name) => {
                self.name = name;
            },
            None => {
                self.name = String::from_str(template_name);
            },
        }
    }
}

/// The views of a list of manifests.
pub open spec fn models_of(fragments: Seq<PackageJson>) -> Seq<ManifestModel> {
    Seq::new(fragments.len(), |i: int| fragments[i]@)
}

/// The view of an optional string.
pub open spec fn name_of(name: Option<String>) -> Option<Seq<char>> {
    match name {
        Some(text) => Some(text@),
        None => None,
    }
}

/// The manifest of the finished project: the base manifest with the
/// fragments merged in, first to last, under the project's final name.
pub open spec fn project_manifest(
    base: ManifestModel,
    fragments: Seq<ManifestModel>,
    destination_name: Option<Seq<char>>,
    template_name: Seq<char>,
) -> ManifestModel {
    ManifestModel {
        name: final_name(destination_name, template_name),
        ..merged_all(base, fragments)
    }
}

/// Folds the base manifest and the fragments of the selected addons, in the
/// order in which the addons are applied, into the manifest of the project,
/// and names it after the destination.
pub fn merge_manifests(
    base: PackageJson,
    fragments: &Vec<PackageJson>,
    destination_name: Option<String>,
    template_name: &str,
) -> (project: PackageJson)
    ensures
        project@ == project_manifest(
            base@,
            models_of(fragments@),
            name_of(destination_name),
            template_name@,
        ),
{
    let mut project = base;
    let mut i: usize = 0;
    let ghost models = models_of(fragments@);
    assert(models.take(0) =~= Seq::<ManifestModel>::empty());
    while i < fragments.len()
        invariant
            i <= fragments@.len(),
            models == models_of(fragments@),
            project@ == merged_all(base@, models.take(i as int)),
        decreases fragments@.len() - i,
    {
        proof {
            assert(models.take(i + 1).drop_last() =~= models.take(i as int));
            assert(models.take(i + 1).last() == fragments@[i as int]@);
        }
        project.merge_fragment(&fragments[i]);
        i += 1;
    }
    assert(models.take(i as int) =~= models);
    project.finalize_name(destination_name, template_name);
    project
}

/// Merging is right-biased: a key of the later section has the later value;
/// a key that only the earlier section holds keeps its value; no other key
/// appears.
pub proof fn lemma_section_right_biased(
    earlier: Map<Seq<char>, Seq<char>>,
    later: Map<Seq<char>, Seq<char>>,
    key: Seq<char>,
)
    ensures
        merged_section(earlier, later).contains_key(key) <==> earlier.contains_key(key)
            || later.contains_key(key),
        later.contains_key(key) ==> merged_section(earlier, later)[key] == later[key],
        earlier.contains_key(key) && !later.contains_key(key) ==> merged_section(
            earlier,
            later,
        )[key] == earlier[key],
{
}

/// Merging three sections gives the same mapping however the merges are
/// grouped.
pub proof fn lemma_section_associative(
    first: Map<Seq<char>, Seq<char>>,
    second: Map<Seq<char>, Seq<char>>,
    third: Map<Seq<char>, Seq<char>>,
)
    ensures
        merged_section(merged_section(first, second), third) == merged_section(
            first,
            merged_section(second, third),
        ),
{
    assert(merged_section(merged_section(first, second), third) =~= merged_section(
        first,
        merged_section(second, third),
    ));
}

/// Sections that share no key can be merged in either order.
pub proof fn lemma_section_disjoint_commutes(
    one: Map<Seq<char>, Seq<char>>,
    other: Map<Seq<char>, Seq<char>>,
)
    requires
        one.dom().disjoint(other.dom()),
    ensures
        merged_section(one, other) == merged_section(other, one),
{
    assert forall|key: Seq<char>| !(one.contains_key(key) && other.contains_key(key)) by {
        if one.contains_key(key) && other.contains_key(key) {
            assert(one.dom().contains(key) && other.dom().contains(key));
        }
    }
    assert(merged_section(one, other) =~= merged_section(other, one));
}

/// Merging two fragments into a base one after the other is the same as
/// merging into the base what the two fragments merge to.
pub proof fn lemma_manifest_merge_associative(
    base: ManifestModel,
    first: ManifestModel,
    second: ManifestModel,
)
    ensures
        merged_manifest(merged_manifest(base, first), second) == merged_manifest(
            base,
            merged_manifest(first, second),
        ),
{
    lemma_section_associative(base.scripts, first.scripts, second.scripts);
    lemma_section_associative(base.dependencies, first.dependencies, second.dependencies);
    lemma_section_associative(
        base.dev_dependencies,
        first.dev_dependencies,
        second.dev_dependencies,
    );
}

/// Whether two fragments declare no key in common in any section.
pub open spec fn disjoint_fragments(one: ManifestModel, other: ManifestModel) -> bool {
    &&& one.scripts.dom().disjoint(other.scripts.dom())
    &&& one.dependencies.dom().disjoint(other.dependencies.dom())
    &&& one.dev_dependencies.dom().disjoint(other.dev_dependencies.dom())
}

/// Fragments with disjoint key sets give the same manifest in whichever
/// order they are applied.
pub proof fn lemma_disjoint_fragments_commute(
    base: ManifestModel,
    one: ManifestModel,
    other: ManifestModel,
)
    requires
        disjoint_fragments(one, other),
    ensures
        merged_manifest(merged_manifest(base, one), other) == merged_manifest(
            merged_manifest(base, other),
            one,
        ),
{
    lemma_section_associative(base.scripts, one.scripts, other.scripts);
    lemma_section_associative(base.scripts, other.scripts, one.scripts);
    lemma_section_disjoint_commutes(one.scripts, other.scripts);
    lemma_section_associative(base.dependencies, one.dependencies, other.dependencies);
    lemma_section_associative(base.dependencies, other.dependencies, one.dependencies);
    lemma_section_disjoint_commutes(one.dependencies, other.dependencies);
    lemma_section_associative(base.dev_dependencies, one.dev_dependencies, other.dev_dependencies);
    lemma_section_associative(base.dev_dependencies, other.dev_dependencies, one.dev_dependencies);
    lemma_section_disjoint_commutes(one.dev_dependencies, other.dev_dependencies);
}

/// Whatever is merged into a base, the name and the unrecognized fields stay
/// those of the base.
pub proof fn lemma_fragments_keep_base_fields(base: ManifestModel, fragments: Seq<ManifestModel>)
    ensures
        merged_all(base, fragments).name == base.name,
        merged_all(base, fragments).unrecognized == base.unrecognized,
    decreases fragments.len(),
{
    if fragments.len() > 0 {
        lemma_fragments_keep_base_fields(base, fragments.drop_last());
    }
}

} // verus!
