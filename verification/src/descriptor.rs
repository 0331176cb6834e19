use vstd::prelude::*;
use vstd::string::*;
use crate::error::ComposeError;
use crate::policy::{mode_named, policy_of, AddonFileCopyType, MergePolicy};
use crate::string_map::{compare_keys, folded, KeyOrder, StringMap};

verus! {

/// A template or an addon as discovery found it: its name and where its
/// directory lies.
#[derive(Debug)]
pub struct Details {
    pub name: String,
    pub path: String,
}

impl View for Details {
    type V = (Seq<char>, Seq<char>);

    open spec fn view(&self) -> (Seq<char>, Seq<char>) {
        (self.name@, self.path@)
    }
}

/// One mapping that an addon declares: a path below the addon's root, a path
/// below the destination, and the mode under which the two are combined.
#[derive(Debug)]
pub struct Entry {
    pub input: String,
    pub output: String,
    pub mode: Option<AddonFileCopyType>,
}

impl Entry {
    /// Builds an entry from what a descriptor declares. The mode is
    /// optional; a mode of an unknown name is refused.
    pub fn new(input: String, output: String, mode: Option<&str>) -> (entry: Result<
        Entry,
        ComposeError,
    >)
        ensures
            mode is None ==> entry == Ok::<Entry, ComposeError>(
                Entry { input, output, mode: None },
            ),
            mode is Some && mode_named(mode->Some_0@) is Some ==> entry == Ok::<
                Entry,
                ComposeError,
            >(Entry { input, output, mode: mode_named(mode->Some_0@) }),
            mode is Some && mode_named(mode->Some_0@) is None ==> entry == Err::<
                Entry,
                ComposeError,
            >(ComposeError::DescriptorParse),
    {
        match mode {
            None => Ok(Entry { input, output, mode: None }),
            Some(name) => match AddonFileCopyType::parse(name) {
                Some(mode) => Ok(Entry { input, output, mode: Some(mode) }),
                None => Err(ComposeError::DescriptorParse),
            },
        }
    }

    /// The policy that governs this entry.
    pub fn policy(&self) -> (policy: MergePolicy)
        ensures
            policy == policy_of(self.mode),
    {
        MergePolicy::resolve(&self.mode)
    }
}

/// An addon's descriptor: the templates it applies to, and its entries in
/// the order in which they are to be carried out.
#[derive(Debug)]
pub struct TadaJson {
    pub templates: Vec<String>,
    pub entries: Vec<Entry>,
}

/// The views of a list of strings.
pub open spec fn names_of(list: Seq<String>) -> Seq<Seq<char>> {
    Seq::new(list.len(), |i: int| list[i]@)
}

/// The name that stands for every template.
pub open spec fn every_template() -> Seq<char> {
    "all"@
}

/// Whether an addon that declares `templates` applies to the template named
/// `template_name`.
pub open spec fn applicable(templates: Seq<Seq<char>>, template_name: Seq<char>) -> bool {
    templates.contains(every_template()) || templates.contains(template_name)
}

/// Whether `list` holds `name`.
pub fn contains_name(list: &Vec<String>, name: &str) -> (found: bool)
    ensures
        found == names_of(list@).contains(name@),
{
    let mut i: usize = 0;
    while i < list.len()
        invariant
            i <= list@.len(),
            forall|j: int| 0 <= j < i ==> names_of(list@)[j] != name@,
        decreases list@.len() - i,
    {
        if compare_keys(list[i].as_str(), name) == KeyOrder::Same {
            assert(names_of(list@)[i as int] == name@);
            return true;
        }
        i += 1;
    }
    false
}

impl TadaJson {
    /// Builds a descriptor from the fields that its file declared. Both
    /// fields are required.
    pub fn new(templates: Option<Vec<String>>, entries: Option<Vec<Entry>>) -> (descriptor: Result<
        TadaJson,
        ComposeError,
    >)
        ensures
            templates is Some && entries is Some ==> descriptor == Ok::<TadaJson, ComposeError>(
                TadaJson { templates: templates->Some_0, entries: entries->Some_0 },
            ),
            templates is None || entries is None ==> descriptor == Err::<TadaJson, ComposeError>(
                ComposeError::DescriptorParse,
            ),
    {
        match templates {
            Some(templates) => match entries {
                Some(entries) => Ok(TadaJson { templates, entries }),
                None => Err(ComposeError::DescriptorParse),
            },
            None => Err(ComposeError::DescriptorParse),
        }
    }

    /// Whether the addon applies to the template of the given name.
    pub fn applies_to(&self, template_name: &str) -> (applies: bool)
        ensures
            applies == applicable(names_of(self.templates@), template_name@),
    {
        contains_name(&self.templates, "all") || contains_name(&self.templates, template_name)
    }
}

/// An addon that names every template applies whatever template is chosen.
pub proof fn lemma_every_template_applies(templates: Seq<Seq<char>>, template_name: Seq<char>)
    requires
        templates.contains(every_template()),
    ensures
        applicable(templates, template_name),
{
}

/// An addon that does not name every template applies to exactly the
/// templates that it lists.
pub proof fn lemma_listed_templates_apply(templates: Seq<Seq<char>>, template_name: Seq<char>)
    requires
        !templates.contains(every_template()),
    ensures
        applicable(templates, template_name) <==> templates.contains(template_name),
{
}

/// An addon that lists a single template, other than the name for all of
/// them, applies to that template and to no other.
pub proof fn lemma_single_template_applies(only: Seq<char>, template_name: Seq<char>)
    requires
        only != every_template(),
    ensures
        applicable(seq![only], template_name) <==> template_name == only,
{
    let templates = seq![only];
    if template_name == only {
        assert(templates[0] == template_name);
    }
    if templates.contains(every_template()) {
        let i = choose|i: int| 0 <= i < templates.len() && templates[i] == every_template();
        assert(templates[i] == only);
    }
}

/// What discovery found of one addon: its name, its path, and the templates
/// that its descriptor lists.
pub open spec fn addon_model(found: (Details, TadaJson)) -> (Seq<char>, Seq<char>, Seq<Seq<char>>) {
    (found.0.name@, found.0.path@, names_of(found.1.templates@))
}

/// The models of a list of discovered addons.
pub open spec fn addon_models(found: Seq<(Details, TadaJson)>) -> Seq<
    (Seq<char>, Seq<char>, Seq<Seq<char>>),
> {
    Seq::new(found.len(), |i: int| addon_model(found[i]))
}

/// Name and path of each discovered addon that applies to the template, in
/// the order of discovery.
pub open spec fn applicable_addons(
    found: Seq<(Seq<char>, Seq<char>, Seq<Seq<char>>)>,
    template_name: Seq<char>,
) -> Seq<(Seq<char>, Seq<char>)>
    decreases found.len(),
{
    if found.len() == 0 {
        Seq::empty()
    } else if applicable(found.last().2, template_name) {
        applicable_addons(found.drop_last(), template_name).push((found.last().0, found.last().1))
    } else {
        applicable_addons(found.drop_last(), template_name)
    }
}

/// Puts the addons that apply to the chosen template into `addons`, each
/// under its name with its path. Addons that do not apply are left out.
pub fn get_filtered_addons(
    found: &Vec<(Details, TadaJson)>,
    template_name: &str,
    addons: &mut StringMap,
)
    ensures
        final(addons)@ == old(addons)@.union_prefer_right(
            folded(applicable_addons(addon_models(found@), template_name@)),
        ),
{
    let ghost start = addons@;
    let ghost models = addon_models(found@);
    let mut i: usize = 0;
    assert(models.take(0) =~= Seq::<(Seq<char>, Seq<char>, Seq<Seq<char>>)>::empty());
    assert(addons@ =~= start.union_prefer_right(
        folded(applicable_addons(models.take(0), template_name@)),
    ));
    while i < found.len()
        invariant
            i <= found@.len(),
            models == addon_models(found@),
            addons@ == start.union_prefer_right(
                folded(applicable_addons(models.take(i as int), template_name@)),
            ),
        decreases found@.len() - i,
    {
        let ghost before = applicable_addons(models.take(i as int), template_name@);
        proof {
            assert(models.take(i + 1).drop_last() =~= models.take(i as int));
            assert(models.take(i + 1).last() == addon_model(found@[i as int]));
        }
        if found[i].1.applies_to(template_name) {
            let name = found[i].0.name.clone();
            let path = found[i].0.path.clone();
            let _ = addons.insert(name, path);
            proof {
                let pair = (found@[i as int].0.name@, found@[i as int].0.path@);
                assert(before.push(pair).drop_last() =~= before);
                assert(addons@ =~= start.union_prefer_right(folded(before.push(pair))));
            }
        }
        i += 1;
    }
    assert(models.take(i as int) =~= models);
}

/// A name is offered exactly if an addon of that name was discovered and
/// applies to the template.
pub proof fn lemma_applicable_names(
    found: Seq<(Seq<char>, Seq<char>, Seq<Seq<char>>)>,
    template_name: Seq<char>,
    name: Seq<char>,
)
    ensures
        folded(applicable_addons(found, template_name)).contains_key(name) <==> exists|i: int|
            0 <= i < found.len() && found[i].0 == name && applicable(
                #[trigger] found[i].2,
                template_name,
            ),
    decreases found.len(),
{
    if found.len() > 0 {
        let front = found.drop_last();
        let last = found.last();
        lemma_applicable_names(front, template_name, name);
        let chosen = applicable_addons(front, template_name);
        if applicable(last.2, template_name) {
            assert(chosen.push((last.0, last.1)).drop_last() =~= chosen);
        }
        if folded(applicable_addons(found, template_name)).contains_key(name) {
            if applicable(last.2, template_name) && last.0 == name {
                assert(found[found.len() - 1].0 == name);
            } else {
                let i = choose|i: int|
                    0 <= i < front.len() && front[i].0 == name && applicable(
                        #[trigger] front[i].2,
                        template_name,
                    );
                assert(found[i].0 == name && applicable(found[i].2, template_name));
            }
        }
        if exists|i: int|
            0 <= i < found.len() && found[i].0 == name && applicable(
                #[trigger] found[i].2,
                template_name,
            ) {
            let i = choose|i: int|
                0 <= i < found.len() && found[i].0 == name && applicable(
                    #[trigger] found[i].2,
                    template_name,
                );
            if i < front.len() {
                assert(front[i].0 == name && applicable(front[i].2, template_name));
            }
        }
    }
}

/// The views of a list of details.
pub open spec fn details_of(list: Seq<Details>) -> Seq<(Seq<char>, Seq<char>)> {
    Seq::new(list.len(), |i: int| list[i]@)
}

/// Puts every listed template into `templates`, under its name with its path.
pub fn get_templates(listing: &Vec<Details>, templates: &mut StringMap)
    ensures
        final(templates)@ == old(templates)@.union_prefer_right(folded(details_of(listing@))),
{
    let ghost start = templates@;
    let ghost listed = details_of(listing@);
    let mut i: usize = 0;
    assert(listed.take(0) =~= Seq::<(Seq<char>, Seq<char>)>::empty());
    assert(templates@ =~= start.union_prefer_right(folded(listed.take(0))));
    while i < listing.len()
        invariant
            i <= listing@.len(),
            listed == details_of(listing@),
            templates@ == start.union_prefer_right(folded(listed.take(i as int))),
        decreases listing@.len() - i,
    {
        proof {
            assert(listed.take(i + 1).drop_last() =~= listed.take(i as int));
            assert(listed.take(i + 1).last() == listing@[i as int]@);
        }
        let name = listing[i].name.clone();
        let path = listing[i].path.clone();
        let _ = templates.insert(name, path);
        proof {
            assert(templates@ =~= start.union_prefer_right(folded(listed.take(i + 1))));
        }
        i += 1;
    }
    assert(listed.take(i as int) =~= listed);
}

/// The paths of the listed items whose names are not to be ignored, in the
/// order of the listing.
pub open spec fn kept_paths(listing: Seq<(Seq<char>, Seq<char>)>, ignore: Seq<Seq<char>>) -> Seq<
    Seq<char>,
>
    decreases listing.len(),
{
    if listing.len() == 0 {
        Seq::empty()
    } else if ignore.contains(listing.last().0) {
        kept_paths(listing.drop_last(), ignore)
    } else {
        kept_paths(listing.drop_last(), ignore).push(listing.last().1)
    }
}

/// The paths of the items of a template that are to be copied: every listed
/// item but those whose name is in `ignore`.
pub fn get_items_in_template(listing: &Vec<Details>, ignore: &Vec<String>) -> (items: Vec<String>)
    ensures
        names_of(items@) == kept_paths(details_of(listing@), names_of(ignore@)),
{
    let mut items: Vec<String> = Vec::new();
    let ghost listed = details_of(listing@);
    let mut i: usize = 0;
    assert(listed.take(0) =~= Seq::<(Seq<char>, Seq<char>)>::empty());
    assert(names_of(items@) =~= kept_paths(listed.take(0), names_of(ignore@)));
    while i < listing.len()
        invariant
            i <= listing@.len(),
            listed == details_of(listing@),
            names_of(items@) == kept_paths(listed.take(i as int), names_of(ignore@)),
        decreases listing@.len() - i,
    {
        proof {
            assert(listed.take(i + 1).drop_last() =~= listed.take(i as int));
            assert(listed.take(i + 1).last() == listing@[i as int]@);
        }
        if !contains_name(ignore, listing[i].name.as_str()) {
            let ghost before = names_of(items@);
            items.push(listing[i].path.clone());
            assert(names_of(items@) =~= before.push(listing@[i as int].path@));
        }
        i += 1;
    }
    assert(listed.take(i as int) =~= listed);
    items
}

/// The details of the option that was chosen, if `options` offers it.
pub fn selected_template(options: &StringMap, chosen: &str) -> (selected: Option<Details>)
    ensures
        options@.contains_key(chosen@) ==> selected is Some && selected->Some_0@ == (
            chosen@,
            options@[chosen@],
        ),
        !options@.contains_key(chosen@) ==> selected is None,
{
    match options.get(chosen) {
        Some(path) => Some(Details { name: String::from_str(chosen), path: path.clone() }),
        None => None,
    }
}

/// No name occurs twice.
pub open spec fn distinct(names: Seq<Seq<char>>) -> bool {
    forall|i: int, j: int| 0 <= i < j < names.len() ==> names[i] != names[j]
}

/// Whether the name at `at` already occurs before it.
fn chosen_before(chosen: &Vec<String>, at: usize) -> (found: bool)
    requires
        at < chosen@.len(),
    ensures
        found == exists|j: int| 0 <= j < at && chosen@[j]@ == chosen@[at as int]@,
{
    let mut j: usize = 0;
    while j < at
        invariant
            j <= at < chosen@.len(),
            forall|k: int| 0 <= k < j ==> chosen@[k]@ != chosen@[at as int]@,
        decreases at - j,
    {
        if compare_keys(chosen[j].as_str(), chosen[at].as_str()) == KeyOrder::Same {
            return true;
        }
        j += 1;
    }
    false
}

/// The details of the options that were chosen, in the order in which they
/// were chosen. Each addon is applied at most once, and only what was
/// offered can be chosen: nothing is returned where a name is chosen twice
/// or `options` does not offer it.
pub fn selected_addons(options: &StringMap, chosen: &Vec<String>) -> (selected: Option<
    Vec<Details>,
>)
    ensures
        selected is Some <==> distinct(names_of(chosen@)) && forall|i: int|
            0 <= i < chosen@.len() ==> options@.contains_key(#[trigger] chosen@[i]@),
        selected is Some ==> selected->Some_0@.len() == chosen@.len() && forall|i: int|
            0 <= i < chosen@.len() ==> (#[trigger] selected->Some_0@[i])@ == (
                chosen@[i]@,
                options@[chosen@[i]@],
            ),
{
    let mut list: Vec<Details> = Vec::new();
    let mut i: usize = 0;
    let ghost names = names_of(chosen@);
    while i < chosen.len()
        invariant
            i <= chosen@.len(),
            list@.len() == i,
            names == names_of(chosen@),
            forall|a: int, b: int| 0 <= a < b < i ==> names[a] != names[b],
            forall|j: int| 0 <= j < i ==> options@.contains_key(#[trigger] chosen@[j]@),
            forall|j: int|
                0 <= j < i ==> (#[trigger] list@[j])@ == (chosen@[j]@, options@[chosen@[j]@]),
        decreases chosen@.len() - i,
    {
        if chosen_before(chosen, i) {
            proof {
                let j = choose|j: int| 0 <= j < i && chosen@[j]@ == chosen@[i as int]@;
                assert(names[j] == names[i as int]);
            }
            return None;
        }
        match selected_template(options, chosen[i].as_str()) {
            Some(details) => {
                list.push(details);
            },
            None => {
                return None;
            },
        }
        assert forall|a: int, b: int| 0 <= a < b < i + 1 implies names[a] != names[b] by {
            if b == i {
                assert(names[a] == chosen@[a]@);
            }
        }
        i += 1;
    }
    Some(list)
}

} // verus!
