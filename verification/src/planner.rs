use vstd::prelude::*;
use vstd::string::*;
use crate::error::ComposeError;

verus! {

/// Where a run of the composition stands. A run moves forward only: from
/// each phase it goes to a later one or aborts, and it never comes back.
#[derive(Debug, Clone, Copy, PartialEq, Eq, Structural)]
pub enum Phase {
    /// The templates are to be enumerated.
    Discover,
    /// The template, the addons and the destination are to be chosen.
    Select,
    /// The destination directory is to be made ready.
    StageDestination,
    /// The template's items are to be copied to the destination.
    CopyBase,
    /// The entry `entry` of the selected addon `addon` is to be applied.
    ApplyAddons { addon: usize, entry: usize },
    /// The manifests are to be folded into one.
    MergeManifests,
    /// The final manifest is to be written.
    Persist,
    /// Every step succeeded.
    Completed,
    /// A step failed; the destination stays as it was left.
    Aborted(ComposeError),
}

impl Phase {
    /// Whether the run has ended.
    pub open spec fn terminal(self) -> bool {
        self == Phase::Completed || self is Aborted
    }

    /// The position of the phase in the run: the number of its step, and
    /// within the step of the addons the addon and its entry.
    pub open spec fn position(self) -> (int, int, int) {
        match self {
            Phase::Discover => (1, 0, 0),
            Phase::Select => (2, 0, 0),
            Phase::StageDestination => (3, 0, 0),
            Phase::CopyBase => (4, 0, 0),
            Phase::ApplyAddons { addon, entry } => (5, addon as int, entry as int),
            Phase::MergeManifests => (6, 0, 0),
            Phase::Persist => (7, 0, 0),
            Phase::Completed => (8, 0, 0),
            Phase::Aborted(_) => (8, 0, 0),
        }
    }

    /// Whether `self` stands strictly before `later` in a run.
    pub open spec fn precedes(self, later: Phase) -> bool {
        let a = self.position();
        let b = later.position();
        a.0 < b.0 || (a.0 == b.0 && (a.1 < b.1 || (a.1 == b.1 && a.2 < b.2)))
    }

    /// Executable form of [`Phase::terminal`].
    pub fn is_terminal(&self) -> (ended: bool)
        ensures
            ended == self.terminal(),
    {
        match self {
            Phase::Completed => true,
            Phase::Aborted(_) => true,
            _ => false,
        }
    }
}

/// The first entry to apply among the addons from `from` on: the first entry
/// of the first addon that has one, or the merging of the manifests where
/// no addon is left that has an entry.
pub open spec fn next_entry(counts: Seq<usize>, from: int) -> Phase
    decreases counts.len() - from,
{
    if from < 0 || from >= counts.len() {
        Phase::MergeManifests
    } else if counts[from] > 0 {
        Phase::ApplyAddons { addon: from as usize, entry: 0 }
    } else {
        next_entry(counts, from + 1)
    }
}

/// The phase that follows `phase` once its step has succeeded. `counts`
/// gives the number of entries of each selected addon, in selection order.
/// Discovery and selection do not end this way: they report what they found.
pub open spec fn after_success(phase: Phase, counts: Seq<usize>) -> Phase {
    match phase {
        Phase::StageDestination => Phase::CopyBase,
        Phase::CopyBase => next_entry(counts, 0),
        Phase::ApplyAddons { addon, entry } => if addon < counts.len() && entry + 1
            < counts[addon as int] {
            Phase::ApplyAddons { addon, entry: (entry + 1) as usize }
        } else {
            next_entry(counts, addon + 1)
        },
        Phase::MergeManifests => Phase::Persist,
        Phase::Persist => Phase::Completed,
        _ => phase,
    }
}

/// The phase that follows `phase` once its step has failed.
pub open spec fn after_failure(phase: Phase, reason: ComposeError) -> Phase {
    if phase.terminal() {
        phase
    } else {
        Phase::Aborted(reason)
    }
}

/// The phase that follows discovery, given the number of templates found.
pub open spec fn after_discovery(phase: Phase, templates: nat) -> Phase {
    if phase != Phase::Discover {
        phase
    } else if templates == 0 {
        Phase::Aborted(ComposeError::NoTemplatesFound)
    } else {
        Phase::Select
    }
}

/// The phase that follows selection.
pub open spec fn after_selection(phase: Phase) -> Phase {
    if phase == Phase::Select {
        Phase::StageDestination
    } else {
        phase
    }
}

/// The planner of one run: the phase in which the run stands, and how many
/// entries each selected addon has. It decides what comes next; carrying a
/// step out is left to its caller, who reports how the step ended.
#[derive(Debug)]
pub struct Planner {
    phase: Phase,
    counts: Vec<usize>,
}

impl Planner {
    /// The phase in which the run stands.
    pub closed spec fn current(&self) -> Phase {
        self.phase
    }

    /// The number of entries of each selected addon, in selection order.
    pub closed spec fn entry_counts(&self) -> Seq<usize> {
        self.counts@
    }

    /// While addons are applied, the planner points at an entry that exists.
    #[verifier::type_invariant]
    spec fn points_at_entry(&self) -> bool {
        match self.phase {
            Phase::ApplyAddons { addon, entry } => addon < self.counts@.len() && entry
                < self.counts@[addon as int],
            _ => true,
        }
    }

    /// A planner at the start of a run.
    pub fn new() -> (planner: Planner)
        ensures
            planner.current() == Phase::Discover,
            planner.entry_counts() == Seq::<usize>::empty(),
    {
        Planner { phase: Phase::Discover, counts: Vec::new() }
    }

    /// The phase in which the run stands, which is also the step that is to
    /// be carried out next. While addons are applied it names an entry that
    /// the selected addons have.
    pub fn phase(&self) -> (phase: Phase)
        ensures
            phase == self.current(),
            phase is ApplyAddons ==> phase->addon < self.entry_counts().len() && phase->entry
                < self.entry_counts()[phase->addon as int],
    {
        proof {
            use_type_invariant(self);
        }
        self.phase
    }

    /// Reports that discovery found `templates` templates. A run without
    /// templates ends here.
    pub fn discovered(&mut self, templates: usize)
        ensures
            final(self).current() == after_discovery(old(self).current(), templates as nat),
            final(self).entry_counts() == old(self).entry_counts(),
    {
        proof {
            use_type_invariant(&*self);
        }
        match self.phase {
            Phase::Discover => {
                if templates == 0 {
                    self.phase = Phase::Aborted(ComposeError::NoTemplatesFound);
                } else {
                    self.phase = Phase::Select;
                }
            },
            _ => {},
        }
    }

    /// Reports the selection: for each selected addon, in selection order,
    /// the number of its entries.
    pub fn selected(&mut self, entry_counts: Vec<usize>)
        ensures
            final(self).current() == after_selection(old(self).current()),
            final(self).entry_counts() == if old(self).current() == Phase::Select {
                entry_counts@
            } else {
                old(self).entry_counts()
            },
    {
        proof {
            use_type_invariant(&*self);
        }
        match self.phase {
            Phase::Select => {
                self.counts = entry_counts;
                self.phase = Phase::StageDestination;
            },
            _ => {},
        }
    }

    /// The first entry to apply among the addons from `from` on.
    fn entry_from(&self, from: usize) -> (phase: Phase)
        requires
            from <= self.counts@.len(),
        ensures
            phase == next_entry(self.counts@, from as int),
            phase is ApplyAddons ==> phase->addon < self.counts@.len() && phase->entry
                < self.counts@[phase->addon as int],
    {
        let mut addon = from;
        while addon < self.counts.len()
            invariant
                from <= addon <= self.counts@.len(),
                next_entry(self.counts@, from as int) == next_entry(self.counts@, addon as int),
            decreases self.counts@.len() - addon,
        {
            if self.counts[addon] > 0 {
                return Phase::ApplyAddons { addon, entry: 0 };
            }
            addon += 1;
        }
        Phase::MergeManifests
    }

    /// Reports that the step of the current phase succeeded, and moves on
    /// to the next one.
    pub fn succeeded(&mut self)
        ensures
            final(self).current() == after_success(old(self).current(), old(self).entry_counts()),
            final(self).entry_counts() == old(self).entry_counts(),
    {
        proof {
            use_type_invariant(&*self);
        }
        match self.phase {
            Phase::StageDestination => {
                self.phase = Phase::CopyBase;
            },
            Phase::CopyBase => {
                let next = self.entry_from(0);
                self.phase = next;
            },
            Phase::ApplyAddons { addon, entry } => {
                let addons = self.counts.len();
                if entry + 1 < self.counts[addon] {
                    self.phase = Phase::ApplyAddons { addon, entry: entry + 1 };
                } else {
                    assert(addon < addons);
                    let next = self.entry_from(addon + 1);
                    self.phase = next;
                }
            },
            Phase::MergeManifests => {
                self.phase = Phase::Persist;
            },
            Phase::Persist => {
                self.phase = Phase::Completed;
            },
            _ => {},
        }
    }

    /// Reports that the step of the current phase failed. The run ends; a
    /// run that has ended stays as it is.
    pub fn failed(&mut self, reason: ComposeError)
        ensures
            final(self).current() == after_failure(old(self).current(), reason),
            final(self).entry_counts() == old(self).entry_counts(),
    {
        proof {
            use_type_invariant(&*self);
        }
        match self.phase {
            Phase::Completed => {},
            Phase::Aborted(_) => {},
            _ => {
                self.phase = Phase::Aborted(reason);
            },
        }
    }
}

/// Whether `addon` is the first addon from `from` on that has an entry.
pub open spec fn first_with_entries(counts: Seq<usize>, from: int, addon: int) -> bool {
    &&& from <= addon < counts.len()
    &&& counts[addon] > 0
    &&& forall|j: int| from <= j < addon ==> counts[j] == 0
}

/// Among the addons from `from` on, `next_entry` picks the first entry of
/// the first addon that has entries, and passes on to the manifests exactly
/// if none has.
pub proof fn lemma_next_entry_is_first(counts: Seq<usize>, from: int)
    requires
        counts.len() <= usize::MAX,
        0 <= from <= counts.len(),
    ensures
        next_entry(counts, from) is ApplyAddons || next_entry(counts, from) is MergeManifests,
        next_entry(counts, from) is ApplyAddons ==> first_with_entries(
            counts,
            from,
            next_entry(counts, from)->addon as int,
        ) && next_entry(counts, from)->entry == 0,
        next_entry(counts, from) is MergeManifests <==> forall|j: int|
            from <= j < counts.len() ==> counts[j] == 0,
    decreases counts.len() - from,
{
    if from < counts.len() && counts[from] == 0 {
        lemma_next_entry_is_first(counts, from + 1);
    }
}

/// A run has no back-edges: a step that succeeds in a phase that is neither
/// terminal nor waiting for discovery or selection leads to a phase that
/// stands strictly later, and a failure leads to the end.
pub proof fn lemma_no_back_edges(phase: Phase, counts: Seq<usize>, reason: ComposeError)
    requires
        counts.len() <= usize::MAX,
        !phase.terminal(),
        phase is ApplyAddons ==> phase->addon < counts.len() && phase->entry
            < counts[phase->addon as int],
    ensures
        phase != Phase::Discover && phase != Phase::Select ==> phase.precedes(
            after_success(phase, counts),
        ),
        phase.precedes(after_failure(phase, reason)),
        after_failure(phase, reason) == Phase::Aborted(reason),
        phase == Phase::Discover ==> forall|templates: nat|
            phase.precedes(#[trigger] after_discovery(phase, templates)),
        phase == Phase::Select ==> phase.precedes(after_selection(phase)),
{
    match phase {
        Phase::CopyBase => {
            lemma_next_entry_is_first(counts, 0);
        },
        Phase::ApplyAddons { addon, entry } => {
            lemma_next_entry_is_first(counts, addon + 1);
        },
        _ => {},
    }
}

/// A run that has ended stays where it is, whatever is reported.
pub proof fn lemma_terminal_absorbs(phase: Phase, counts: Seq<usize>, reason: ComposeError)
    requires
        phase.terminal(),
    ensures
        after_success(phase, counts) == phase,
        after_failure(phase, reason) == phase,
        after_selection(phase) == phase,
        forall|templates: nat| #[trigger] after_discovery(phase, templates) == phase,
{
}

/// How the destination is made ready.
#[derive(Debug, Clone, Copy, PartialEq, Eq, Structural)]
pub enum Staging {
    /// Create the destination directory with everything above it.
    CreateDestination,
    /// The destination is there: make sure of the directory above it.
    /// What the destination holds is kept and merged into.
    EnsureParent,
    /// The destination is there and has nothing above it.
    Nothing,
}

/// Decides how the destination is made ready, from whether it exists and
/// whether its path has a parent.
pub fn stage_destination(destination_exists: bool, has_parent: bool) -> (staging: Staging)
    ensures
        !destination_exists ==> staging == Staging::CreateDestination,
        destination_exists && has_parent ==> staging == Staging::EnsureParent,
        destination_exists && !has_parent ==> staging == Staging::Nothing,
{
    if !destination_exists {
        Staging::CreateDestination
    } else if has_parent {
        Staging::EnsureParent
    } else {
        Staging::Nothing
    }
}

/// The names of the build and dependency directories that are never copied
/// from a template.
pub open spec fn ignored() -> Seq<Seq<char>> {
    seq!["node_modules"@, ".turbo"@, "dist"@]
}

/// The names that the copy of a template leaves out.
pub fn ignored_names() -> (names: Vec<String>)
    ensures
        crate::descriptor::names_of(names@) == ignored(),
{
    let mut names: Vec<String> = Vec::new();
    names.push(String::from_str("node_modules"));
    names.push(String::from_str(".turbo"));
    names.push(String::from_str("dist"));
    assert(crate::descriptor::names_of(names@) =~= ignored());
    names
}

} // verus!
