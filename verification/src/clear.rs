//! Clearing a fresh project tree of what belongs to the theme's own
//! repository.

use vstd::prelude::*;

verus! {

/// Whether a name stands for a folder or for a file.
#[derive(Clone, Copy, Debug, PartialEq, Eq, Structural)]
pub enum TargetKind {
    Folder,
    File,
}

/// Something to remove from the project root.
#[derive(Clone, Debug, PartialEq, Eq)]
pub struct CleanupTarget {
    pub name: String,
    pub kind: TargetKind,
}

impl View for CleanupTarget {
    type V = (Seq<char>, TargetKind);

    open spec fn view(&self) -> (Seq<char>, TargetKind) {
        (self.name@, self.kind)
    }
}

/// What is cleared from a project root, in the order of removal: the
/// folders first, then the files.
pub open spec fn cleanup_targets() -> Seq<(Seq<char>, TargetKind)> {
    seq![
        (".github"@, TargetKind::Folder),
        (".husky"@, TargetKind::Folder),
        (".npmrc"@, TargetKind::File),
        (".releaserc"@, TargetKind::File),
        ("CHANGELOG.md"@, TargetKind::File),
        ("README.md"@, TargetKind::File),
    ]
}

/// The targets whose names are among `present`, in order.
pub open spec fn present_targets(
    targets: Seq<(Seq<char>, TargetKind)>,
    present: Set<Seq<char>>,
) -> Seq<(Seq<char>, TargetKind)>
    decreases targets.len(),
{
    if targets.len() == 0 {
        targets
    } else if present.contains(targets.last().0) {
        present_targets(targets.drop_last(), present).push(targets.last())
    } else {
        present_targets(targets.drop_last(), present)
    }
}

/// The names that a list holds.
pub open spec fn name_set(names: Seq<String>) -> Set<Seq<char>> {
    Set::new(|name: Seq<char>| exists|i: int| 0 <= i < names.len() && #[trigger] names[i]@ == name)
}

/// What a list of targets stands for.
pub open spec fn target_views(targets: Seq<CleanupTarget>) -> Seq<(Seq<char>, TargetKind)> {
    targets.map_values(|target: CleanupTarget| target@)
}

/// Tells whether `name` is among `names`.
pub fn is_present(names: &Vec<String>, name: &String) -> (found: bool)
    ensures
        found == name_set(names@).contains(name@),
{
    let mut at: usize = 0;
    while at < names.len()
        invariant
            at <= names@.len(),
            forall|j: int| 0 <= j < at ==> names@[j]@ != name@,
        decreases names@.len() - at,
    {
        if names[at] == *name {
            return true;
        }
        at += 1;
    }
    false
}

/// The whole list of targets.
fn all_targets() -> (targets: Vec<CleanupTarget>)
    ensures
        target_views(targets@) == cleanup_targets(),
{
    let mut targets: Vec<CleanupTarget> = Vec::new();
    targets.push(CleanupTarget { name: ".github".to_owned(), kind: TargetKind::Folder });
    targets.push(CleanupTarget { name: ".husky".to_owned(), kind: TargetKind::Folder });
    targets.push(CleanupTarget { name: ".npmrc".to_owned(), kind: TargetKind::File });
    targets.push(CleanupTarget { name: ".releaserc".to_owned(), kind: TargetKind::File });
    targets.push(CleanupTarget { name: "CHANGELOG.md".to_owned(), kind: TargetKind::File });
    targets.push(CleanupTarget { name: "README.md".to_owned(), kind: TargetKind::File });
    assert(target_views(targets@) =~= cleanup_targets());
    targets
}

/// Decides what to remove from a project root in which the entries
/// `present` exist: each target that exists, the folders first, then the
/// files.
pub fn clear_folders_and_files(present: &Vec<String>) -> (removals: Vec<CleanupTarget>)
    ensures
        target_views(removals@) == present_targets(cleanup_targets(), name_set(present@)),
{
    let ghost all = cleanup_targets();
    let ghost names = name_set(present@);
    let mut removals: Vec<CleanupTarget> = Vec::new();
    assert(target_views(removals@) =~= present_targets(all.take(0), names));
    for target in it: all_targets()
        invariant
            all == target_views(it.seq()),
            all == cleanup_targets(),
            names == name_set(present@),
            target_views(removals@) == present_targets(all.take(it.index() as int), names),
    {
        proof {
            assert(all.take(it.index() + 1).drop_last() =~= all.take(it.index() as int));
        }
        if is_present(present, &target.name) {
            removals.push(target);
            assert(target_views(removals@) =~= present_targets(all.take(it.index() + 1), names));
        }
    }
    assert(all.take(all.len() as int) =~= all);
    removals
}

} // verus!
