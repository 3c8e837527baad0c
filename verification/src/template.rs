//! Guarded insertion of a snippet into a template file.

use vstd::prelude::*;
use crate::bytes::{
    append_range, find, first_occurrence, first_offset, lemma_leftmost_exists, occurs, occurs_at,
};

verus! {

/// How an attempt to patch a template ended.
#[derive(Clone, Copy, Debug, PartialEq, Eq, Structural)]
pub enum PatchOutcome {
    /// The snippet was inserted after the anchor.
    Patched,
    /// The template already holds the marker; nothing was changed.
    AlreadyPresent,
    /// The template holds neither marker nor anchor; nothing was changed.
    AnchorMissing,
    /// There is no template; nothing to patch.
    FileAbsent,
}

/// The outcome of a patch and, where the template changed, its new content.
#[derive(Clone, Debug, PartialEq, Eq)]
pub struct PatchResult {
    pub outcome: PatchOutcome,
    /// The bytes to write back; `Some` exactly when `outcome` is `Patched`.
    pub content: Option<Vec<u8>>,
}

/// `content` with `insertion` put directly behind the leftmost `anchor`.
pub open spec fn inserted_after_anchor(
    content: Seq<u8>,
    anchor: Seq<u8>,
    insertion: Seq<u8>,
) -> Seq<u8> {
    let cut = first_offset(content, anchor) + anchor.len();
    content.subrange(0, cut) + insertion + content.subrange(cut, content.len() as int)
}

/// What patching decides for a template, as a function of its content.
pub open spec fn patch_outcome(
    content: Option<Seq<u8>>,
    marker: Seq<u8>,
    anchor: Seq<u8>,
) -> PatchOutcome {
    match content {
        None => PatchOutcome::FileAbsent,
        Some(c) => if occurs(c, marker) {
            PatchOutcome::AlreadyPresent
        } else if occurs(c, anchor) {
            PatchOutcome::Patched
        } else {
            PatchOutcome::AnchorMissing
        },
    }
}

/// What a template holds, where there is one.
pub open spec fn content_view(content: Option<&[u8]>) -> Option<Seq<u8>> {
    match content {
        Some(bytes) => Some(bytes@),
        None => None,
    }
}

/// What a buffer holds, where there is one.
pub open spec fn view_of(content: Option<Vec<u8>>) -> Option<Seq<u8>> {
    match content {
        Some(bytes) => Some(bytes@),
        None => None,
    }
}

/// The bytes to write back after patching: `None` where nothing changes.
pub open spec fn patched_content(
    content: Option<Seq<u8>>,
    marker: Seq<u8>,
    insertion: Seq<u8>,
    anchor: Seq<u8>,
) -> Option<Seq<u8>> {
    if patch_outcome(content, marker, anchor) == PatchOutcome::Patched {
        Some(inserted_after_anchor(content->0, anchor, insertion))
    } else {
        None
    }
}

/// Patches a template: inserts `insertion` directly behind the leftmost
/// `anchor`, unless the template is absent, already holds `marker`, or holds
/// no `anchor`. A template that holds the marker is left as it is.
///
/// `content` is `None` where the template file does not exist.
pub fn patch(
    content: Option<&[u8]>,
    marker: &[u8],
    insertion: &[u8],
    anchor: &[u8],
) -> (result: PatchResult)
    ensures
        result.outcome == patch_outcome(content_view(content), marker@, anchor@),
        view_of(result.content) == patched_content(
            content_view(content),
            marker@,
            insertion@,
            anchor@,
        ),
        content matches Some(bytes) && occurs(bytes@, marker@) ==> {
            &&& result.outcome == PatchOutcome::AlreadyPresent
            &&& result.content is None
        },
{
    let text = match content {
        None => {
            return PatchResult { outcome: PatchOutcome::FileAbsent, content: None };
        },
        Some(text) => text,
    };
    if find(text, marker).is_some() {
        return PatchResult { outcome: PatchOutcome::AlreadyPresent, content: None };
    }
    match find(text, anchor) {
        None => PatchResult { outcome: PatchOutcome::AnchorMissing, content: None },
        Some(at) => {
            assert(at + anchor.len() <= text.len());
            let cut: usize = at + anchor.len();
            let mut out: Vec<u8> = Vec::new();
            append_range(&mut out, text, 0, cut);
            append_range(&mut out, insertion, 0, insertion.len());
            append_range(&mut out, text, cut, text.len());
            assert(insertion@.subrange(0, insertion@.len() as int) =~= insertion@);
            PatchResult { outcome: PatchOutcome::Patched, content: Some(out) }
        },
    }
}

/// Where a template is patched, the insertion stands directly behind the
/// leftmost anchor, and the template is otherwise as it was: what came
/// before the insertion and what follows it are the two parts of the old
/// content.
pub proof fn lemma_inserted_directly_behind_anchor(
    content: Seq<u8>,
    anchor: Seq<u8>,
    insertion: Seq<u8>,
)
    requires
        occurs(content, anchor),
    ensures
        ({
            let at = first_offset(content, anchor);
            let out = inserted_after_anchor(content, anchor, insertion);
            &&& first_occurrence(content, anchor, at)
            &&& out.len() == content.len() + insertion.len()
            &&& occurs_at(out, anchor + insertion, at)
            &&& out.subrange(0, at + anchor.len()) == content.subrange(0, at + anchor.len())
            &&& out.subrange(at + anchor.len() + insertion.len(), out.len() as int)
                == content.subrange(at + anchor.len(), content.len() as int)
        }),
{
    let witness = choose|at: int| occurs_at(content, anchor, at);
    lemma_leftmost_exists(content, anchor, witness);
    let at = first_offset(content, anchor);
    let cut = at + anchor.len();
    let out = inserted_after_anchor(content, anchor, insertion);
    assert(out.subrange(at, cut + insertion.len()) =~= anchor + insertion) by {
        assert(content.subrange(at, cut) == anchor);
        assert forall|i: int| 0 <= i < anchor.len() implies out[at + i] == anchor[i] by {
            assert(content.subrange(at, cut)[i] == content[at + i]);
        }
    }
    assert(out.subrange(0, cut) =~= content.subrange(0, cut));
    assert(out.subrange(cut + insertion.len(), out.len() as int) =~= content.subrange(
        cut,
        content.len() as int,
    ));
}

/// What stands in the insertion stands in the patched template.
pub proof fn lemma_insertion_occurs(
    content: Seq<u8>,
    anchor: Seq<u8>,
    insertion: Seq<u8>,
    marker: Seq<u8>,
)
    requires
        occurs(content, anchor),
        occurs(insertion, marker),
    ensures
        occurs(inserted_after_anchor(content, anchor, insertion), marker),
{
    lemma_inserted_directly_behind_anchor(content, anchor, insertion);
    let cut = first_offset(content, anchor) + anchor.len();
    let inside = choose|at: int| occurs_at(insertion, marker, at);
    let out = inserted_after_anchor(content, anchor, insertion);
    assert(out.subrange(cut + inside, cut + inside + marker.len()) =~= insertion.subrange(
        inside,
        inside + marker.len(),
    ));
    assert(occurs_at(out, marker, cut + inside));
}

/// A template without the marker and with the anchor is patched: the
/// insertion goes directly behind the leftmost anchor. Patching the result
/// once more reports that the marker is present and changes nothing,
/// provided that the patched template holds the marker; it does wherever the
/// insertion holds it.
pub proof fn lemma_patched_once(
    content: Seq<u8>,
    marker: Seq<u8>,
    insertion: Seq<u8>,
    anchor: Seq<u8>,
)
    requires
        !occurs(content, marker),
        occurs(content, anchor),
    ensures
        patch_outcome(Some(content), marker, anchor) == PatchOutcome::Patched,
        patched_content(Some(content), marker, insertion, anchor) == Some(
            inserted_after_anchor(content, anchor, insertion),
        ),
        occurs(insertion, marker) ==> occurs(
            inserted_after_anchor(content, anchor, insertion),
            marker,
        ),
        occurs(inserted_after_anchor(content, anchor, insertion), marker) ==> {
            let once = Some(inserted_after_anchor(content, anchor, insertion));
            &&& patch_outcome(once, marker, anchor) == PatchOutcome::AlreadyPresent
            &&& patched_content(once, marker, insertion, anchor) is None
        },
{
    if occurs(insertion, marker) {
        lemma_insertion_occurs(content, anchor, insertion, marker);
    }
}

} // verus!
