//! From the entries of an archive to the directories and files of a project
//! tree.
//!
//! The archive wraps all content in one top-level folder. Each entry loses
//! the first component of its path, whatever that component is; what
//! remains is its place below the destination. An entry of which nothing
//! remains is skipped. An entry whose remaining path holds `..` or a NUL
//! byte is unsafe and ends the extraction. Nothing is written here: the
//! result is a plan, which the caller performs in order.

use vstd::prelude::*;
use crate::archive::{
    archive_listing, entry_count, is_directory, listing_of, open_archive, read_entry, ArchiveEntry,
};
use crate::path::{
    components, contents, is_safe_name, is_safe_path, is_traversal, lemma_components,
    split_components, DOT,
};

verus! {

/// Why an extraction ended early.
#[derive(Clone, Copy, Debug, PartialEq, Eq, Structural)]
pub enum ExtractError {
    /// The archive, or one of its entries, cannot be read.
    Corrupt,
    /// A directory or file could not be created.
    Io,
    /// An entry would be placed outside the destination.
    UnsafePath,
}

/// One thing to create below the destination, as data.
pub enum ActionView {
    CreateDir { path: Seq<Seq<u8>> },
    WriteFile { path: Seq<Seq<u8>>, data: Seq<u8> },
}

/// One thing to create below the destination. A path is given by its
/// components, outermost first.
#[derive(Clone, Debug, PartialEq, Eq)]
pub enum Action {
    /// Create the directory and every missing ancestor.
    CreateDir { path: Vec<Vec<u8>> },
    /// Create every missing ancestor, then the file with this content.
    WriteFile { path: Vec<Vec<u8>>, data: Vec<u8> },
}

impl View for Action {
    type V = ActionView;

    open spec fn view(&self) -> ActionView {
        match *self {
            Action::CreateDir { path } => ActionView::CreateDir { path: contents(path@) },
            Action::WriteFile { path, data } => ActionView::WriteFile {
                path: contents(path@),
                data: data@,
            },
        }
    }
}

/// The path of an action.
pub open spec fn action_path(action: ActionView) -> Seq<Seq<u8>> {
    match action {
        ActionView::CreateDir { path } => path,
        ActionView::WriteFile { path, .. } => path,
    }
}

/// An extraction as data: what to create, in order, and why it ended early.
pub struct PlanView {
    pub actions: Seq<ActionView>,
    pub failure: Option<ExtractError>,
}

/// An extraction: the actions to perform, in order, and the error to
/// report after them where the extraction ended early.
#[derive(Clone, Debug, PartialEq, Eq)]
pub struct ExtractionPlan {
    pub actions: Vec<Action>,
    pub failure: Option<ExtractError>,
}

impl View for ExtractionPlan {
    type V = PlanView;

    open spec fn view(&self) -> PlanView {
        PlanView {
            actions: self.actions@.map_values(|action: Action| action@),
            failure: self.failure,
        }
    }
}

/// The place of an entry below the destination: its path without the first
/// component.
pub open spec fn stripped(path: Seq<u8>) -> Seq<Seq<u8>> {
    if components(path).len() == 0 {
        Seq::empty()
    } else {
        components(path).drop_first()
    }
}

/// Nothing of the entry's path remains below the destination.
pub open spec fn is_skipped(path: Seq<u8>) -> bool {
    components(path).len() <= 1
}

/// A component that must not be created: `..`, or a name with a NUL byte.
pub open spec fn is_unsafe_name(name: Seq<u8>) -> bool {
    is_traversal(name) || name.contains(0u8)
}

/// The entry's place below the destination has an unsafe component.
pub open spec fn is_unsafe(path: Seq<u8>) -> bool {
    exists|i: int| 0 <= i < stripped(path).len() && is_unsafe_name(#[trigger] stripped(path)[i])
}

/// What an entry that is neither skipped nor unsafe asks for.
pub open spec fn action_for(entry: (Seq<u8>, Seq<u8>)) -> ActionView {
    if is_directory(entry.0) {
        ActionView::CreateDir { path: stripped(entry.0) }
    } else {
        ActionView::WriteFile { path: stripped(entry.0), data: entry.1 }
    }
}

/// What one entry decides: an error, nothing, or an action.
pub open spec fn entry_plan(entry: (Seq<u8>, Seq<u8>)) -> Result<Option<ActionView>, ExtractError> {
    if is_skipped(entry.0) {
        Ok(None)
    } else if is_unsafe(entry.0) {
        Err(ExtractError::UnsafePath)
    } else {
        Ok(Some(action_for(entry)))
    }
}

/// A plan after one more entry; `None` stands for an entry that cannot be
/// read. A plan that has failed stays as it is.
pub open spec fn plan_step(plan: PlanView, entry: Option<(Seq<u8>, Seq<u8>)>) -> PlanView {
    if plan.failure is Some {
        plan
    } else {
        match entry {
            None => PlanView { actions: plan.actions, failure: Some(ExtractError::Corrupt) },
            Some(entry) => match entry_plan(entry) {
                Err(error) => PlanView { actions: plan.actions, failure: Some(error) },
                Ok(None) => plan,
                Ok(Some(action)) => PlanView { actions: plan.actions.push(action), failure: None },
            },
        }
    }
}

/// The plan for a list of entries, taken in order.
pub open spec fn planned(listing: Seq<Option<(Seq<u8>, Seq<u8>)>>) -> PlanView
    decreases listing.len(),
{
    if listing.len() == 0 {
        PlanView { actions: Seq::empty(), failure: None }
    } else {
        plan_step(planned(listing.drop_last()), listing.last())
    }
}

/// The plan for an archive given by its bytes; `None` where the bytes are
/// no archive.
pub open spec fn planned_archive(bytes: Seq<u8>) -> Option<PlanView> {
    match archive_listing(bytes) {
        None => None,
        Some(listing) => Some(planned(listing)),
    }
}

/// The entries of a list, each one readable.
pub open spec fn readable(entries: Seq<ArchiveEntry>) -> Seq<Option<(Seq<u8>, Seq<u8>)>> {
    entries.map_values(|entry: ArchiveEntry| Some(entry@))
}

/// What a decision on an entry stands for.
pub open spec fn decision_view(
    decided: Result<Option<Action>, ExtractError>,
) -> Result<Option<ActionView>, ExtractError> {
    match decided {
        Ok(Some(action)) => Ok(Some(action@)),
        Ok(None) => Ok(None),
        Err(error) => Err(error),
    }
}

/// Tells whether a component must not be created.
pub fn unsafe_name(name: &Vec<u8>) -> (refused: bool)
    ensures
        refused == is_unsafe_name(name@),
{
    if name.len() == 2 && name[0] == DOT && name[1] == DOT {
        assert(name@ =~= seq![DOT, DOT]);
        return true;
    }
    assert(!is_traversal(name@)) by {
        if name@.len() == 2 {
            assert(seq![DOT, DOT][0] == DOT && seq![DOT, DOT][1] == DOT);
        }
    }
    let mut at: usize = 0;
    while at < name.len()
        invariant
            at <= name@.len(),
            forall|j: int| 0 <= j < at ==> name@[j] != 0u8,
        decreases name@.len() - at,
    {
        if name[at] == 0u8 {
            return true;
        }
        at += 1;
    }
    false
}

/// Decides what one entry asks for: nothing, where only the top-level
/// folder is named; an error, where its place below the destination is
/// unsafe; else a directory or a file at that place.
pub fn plan_entry(entry: ArchiveEntry) -> (decided: Result<Option<Action>, ExtractError>)
    ensures
        decision_view(decided) == entry_plan(entry@),
        decided matches Ok(Some(action)) ==> is_safe_path(action_path(action@)),
{
    let directory = entry.is_directory();
    let ArchiveEntry { path: raw, data } = entry;
    let mut parts = split_components(raw.as_slice());
    if parts.len() <= 1 {
        return Ok(None);
    }
    parts.remove(0);
    assert(contents(parts@) =~= stripped(raw@));
    let mut at: usize = 0;
    while at < parts.len()
        invariant
            at <= parts@.len(),
            entry@ == (raw@, data@),
            !is_skipped(raw@),
            contents(parts@) == stripped(raw@),
            forall|j: int| 0 <= j < at ==> !is_unsafe_name(#[trigger] stripped(raw@)[j]),
        decreases parts@.len() - at,
    {
        if unsafe_name(&parts[at]) {
            assert(is_unsafe_name(stripped(raw@)[at as int]));
            return Err(ExtractError::UnsafePath);
        }
        at += 1;
    }
    proof {
        lemma_components(raw@);
        let place = stripped(raw@);
        assert forall|i: int| 0 <= i < place.len() implies is_safe_name(#[trigger] place[i]) by {
            assert(place[i] == components(raw@)[i + 1]);
            assert(!is_unsafe_name(place[i]));
        }
    }
    if directory {
        Ok(Some(Action::CreateDir { path: parts }))
    } else {
        Ok(Some(Action::WriteFile { path: parts, data }))
    }
}

/// Every action of a plan has a safe path.
pub open spec fn all_safe(plan: PlanView) -> bool {
    forall|i: int|
        0 <= i < plan.actions.len() ==> is_safe_path(action_path(#[trigger] plan.actions[i]))
}

/// An empty plan.
pub fn empty_plan() -> (plan: ExtractionPlan)
    ensures
        plan@ == planned(Seq::empty()),
{
    let plan = ExtractionPlan { actions: Vec::new(), failure: None };
    assert(plan@.actions =~= Seq::<ActionView>::empty());
    plan
}

/// Takes one more entry into a plan.
pub fn extend_plan(plan: &mut ExtractionPlan, entry: ArchiveEntry)
    ensures
        final(plan)@ == plan_step(old(plan)@, Some(entry@)),
        all_safe(old(plan)@) ==> all_safe(final(plan)@),
{
    if plan.failure.is_some() {
        return;
    }
    match plan_entry(entry) {
        Err(error) => {
            plan.failure = Some(error);
        },
        Ok(None) => {},
        Ok(Some(action)) => {
            plan.actions.push(action);
            assert(plan@.actions =~= old(plan)@.actions.push(action@));
        },
    }
}

/// Plans the extraction of a list of entries, taken in order.
pub fn plan_entries(entries: Vec<ArchiveEntry>) -> (plan: ExtractionPlan)
    ensures
        plan@ == planned(readable(entries@)),
        all_safe(plan@),
{
    let ghost listing = readable(entries@);
    let mut plan = empty_plan();
    for entry in it: entries
        invariant
            listing == readable(it.seq()),
            plan@ == planned(listing.take(it.index() as int)),
            all_safe(plan@),
    {
        proof {
            assert(listing.take(it.index() + 1).drop_last() =~= listing.take(it.index() as int));
        }
        extend_plan(&mut plan, entry);
    }
    assert(listing.take(listing.len() as int) =~= listing);
    plan
}

/// A plan that has failed is not changed by what follows.
pub proof fn lemma_failure_ends(listing: Seq<Option<(Seq<u8>, Seq<u8>)>>, read: int)
    requires
        0 <= read <= listing.len(),
        planned(listing.take(read)).failure is Some,
    ensures
        planned(listing) == planned(listing.take(read)),
    decreases listing.len() - read,
{
    if read < listing.len() {
        assert(listing.take(read + 1).drop_last() =~= listing.take(read));
        lemma_failure_ends(listing, read + 1);
    } else {
        assert(listing.take(read) =~= listing);
    }
}

/// Plans the extraction of an archive given by its bytes. Bytes that are no
/// archive are `Corrupt` and give no plan. The entries of an archive are
/// read in order up to the first that cannot be read or is unsafe; the plan
/// holds what comes before it, and the failure.
pub fn extract(archive: Vec<u8>) -> (result: Result<ExtractionPlan, ExtractError>)
    ensures
        match result {
            Ok(plan) => planned_archive(archive@) == Some(plan@) && all_safe(plan@),
            Err(error) => error == ExtractError::Corrupt && planned_archive(archive@) is None,
        },
{
    let mut opened = match open_archive(archive) {
        Ok(opened) => opened,
        Err(_) => {
            return Err(ExtractError::Corrupt);
        },
    };
    let ghost listing = listing_of(opened);
    let count: usize = entry_count(&opened);
    let mut plan = empty_plan();
    let mut index: usize = 0;
    proof {
        assert(listing.take(0) =~= Seq::empty());
    }
    while index < count && plan.failure.is_none()
        invariant
            listing_of(opened) == listing,
            count == listing.len(),
            index <= count,
            plan@ == planned(listing.take(index as int)),
            all_safe(plan@),
        decreases count - index,
    {
        proof {
            assert(listing.take(index + 1).drop_last() =~= listing.take(index as int));
        }
        match read_entry(&mut opened, index) {
            Some(entry) => {
                extend_plan(&mut plan, entry);
            },
            None => {
                plan.failure = Some(ExtractError::Corrupt);
            },
        }
        index += 1;
    }
    proof {
        if plan.failure is Some {
            lemma_failure_ends(listing, index as int);
        } else {
            assert(listing.take(index as int) =~= listing);
        }
    }
    Ok(plan)
}

/// An entry that asks for an action asks for one with a safe path.
pub proof fn lemma_entry_safe(entry: (Seq<u8>, Seq<u8>))
    ensures
        entry_plan(entry) matches Ok(Some(action)) ==> is_safe_path(action_path(action)),
{
    if let Ok(Some(action)) = entry_plan(entry) {
        lemma_components(entry.0);
        let place = stripped(entry.0);
        assert(action_path(action) == place);
        assert forall|i: int| 0 <= i < place.len() implies is_safe_name(#[trigger] place[i]) by {
            assert(place[i] == components(entry.0)[i + 1]);
            assert(!is_unsafe_name(place[i]));
        }
    }
}

/// Whatever the entries, every action of their plan has a safe path:
/// nothing is created outside the destination.
pub proof fn lemma_planned_safe(listing: Seq<Option<(Seq<u8>, Seq<u8>)>>)
    ensures
        all_safe(planned(listing)),
    decreases listing.len(),
{
    if listing.len() > 0 {
        lemma_planned_safe(listing.drop_last());
        let before = planned(listing.drop_last());
        let after = planned(listing);
        if let Some(entry) = listing.last() {
            lemma_entry_safe(entry);
        }
        assert forall|i: int| 0 <= i < after.actions.len() implies is_safe_path(
            action_path(#[trigger] after.actions[i]),
        ) by {
            if i < before.actions.len() {
                assert(after.actions[i] == before.actions[i]);
            }
        }
    }
}

/// An entry whose place below the destination holds `..` is rejected.
pub proof fn lemma_traversal_rejected(entry: (Seq<u8>, Seq<u8>), at: int)
    requires
        0 <= at < stripped(entry.0).len(),
        is_traversal(stripped(entry.0)[at]),
    ensures
        entry_plan(entry) == Err::<Option<ActionView>, ExtractError>(ExtractError::UnsafePath),
{
    assert(is_unsafe_name(stripped(entry.0)[at]));
}

/// An archive with an unsafe entry has a plan that fails, and no action of
/// the plan comes from that entry or from one behind it.
pub proof fn lemma_unsafe_entry_fails(listing: Seq<Option<(Seq<u8>, Seq<u8>)>>, at: int)
    requires
        0 <= at < listing.len(),
        listing[at] matches Some(entry) && is_unsafe(entry.0),
    ensures
        planned(listing).failure is Some,
        planned(listing) == planned(listing.take(at + 1)),
        planned(listing).actions == planned(listing.take(at)).actions,
{
    assert(listing.take(at + 1).drop_last() =~= listing.take(at));
    assert(listing.take(at + 1).last() == listing[at]);
    let entry = listing[at]->0;
    assert(!is_skipped(entry.0)) by {
        let place = stripped(entry.0);
        let i = choose|i: int| 0 <= i < place.len() && is_unsafe_name(#[trigger] place[i]);
        assert(place.len() > 0);
    }
    lemma_failure_ends(listing, at + 1);
}

/// Every action of a plan comes from an entry: it is what that entry asks
/// for, at the entry's path without the first component.
pub proof fn lemma_action_origin(listing: Seq<Option<(Seq<u8>, Seq<u8>)>>, at: int) -> (from: int)
    requires
        0 <= at < planned(listing).actions.len(),
    ensures
        0 <= from < listing.len(),
        listing[from] matches Some(entry) && {
            &&& entry_plan(entry) == Ok::<Option<ActionView>, ExtractError>(Some(action_for(entry)))
            &&& planned(listing).actions[at] == action_for(entry)
            &&& action_path(planned(listing).actions[at]) == stripped(entry.0)
        },
    decreases listing.len(),
{
    let rest = listing.drop_last();
    if at < planned(rest).actions.len() {
        let from = lemma_action_origin(rest, at);
        assert(rest[from] == listing[from]);
        from
    } else {
        listing.len() - 1
    }
}

/// `name` stands in the path of the entry somewhere below its first
/// component.
pub open spec fn names_below_top(entry: Option<(Seq<u8>, Seq<u8>)>, name: Seq<u8>) -> bool {
    entry matches Some(readable) && stripped(readable.0).contains(name)
}

/// The top-level folder is gone from every path of the plan: where no entry
/// names `root` below its first component, `root` stands in no path of the
/// plan. (The first component of an entry is dropped whatever it is; a
/// folder of the same name further down stays.)
pub proof fn lemma_root_stripped(listing: Seq<Option<(Seq<u8>, Seq<u8>)>>, root: Seq<u8>)
    requires
        forall|k: int| 0 <= k < listing.len() ==> !names_below_top(#[trigger] listing[k], root),
    ensures
        forall|j: int|
            0 <= j < planned(listing).actions.len() ==> !action_path(
                #[trigger] planned(listing).actions[j],
            ).contains(root),
    decreases listing.len(),
{
    if listing.len() > 0 {
        let rest = listing.drop_last();
        assert forall|k: int| 0 <= k < rest.len() implies !names_below_top(
            #[trigger] rest[k],
            root,
        ) by {
            assert(rest[k] == listing[k]);
        }
        lemma_root_stripped(rest, root);
        let before = planned(rest);
        let after = planned(listing);
        assert forall|j: int| 0 <= j < after.actions.len() implies !action_path(
            #[trigger] after.actions[j],
        ).contains(root) by {
            if j < before.actions.len() {
                assert(after.actions[j] == before.actions[j]);
            } else {
                assert(!names_below_top(listing[listing.len() - 1], root));
            }
        }
    }
}

} // verus!
