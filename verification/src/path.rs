//! Entry paths of an archive: their components, and which of them are safe
//! to create below a destination directory.
//!
//! A path is a byte string whose components are separated by `/`. Empty
//! components and `.` stand for nothing and are left out.

use vstd::prelude::*;

verus! {

/// The byte that separates the components of a path: `/`.
pub const SEPARATOR: u8 = 0x2f;

/// The byte of which `.` and `..` are made.
pub const DOT: u8 = 0x2e;

/// The pieces into which the separators cut a path: one more than there are
/// separators, some of them possibly empty.
pub open spec fn segments(path: Seq<u8>) -> Seq<Seq<u8>>
    decreases path.len(),
{
    if path.len() == 0 {
        seq![Seq::<u8>::empty()]
    } else {
        let before = segments(path.drop_last());
        if path.last() == SEPARATOR {
            before.push(Seq::<u8>::empty())
        } else {
            before.drop_last().push(before.last().push(path.last()))
        }
    }
}

/// Some pieces with a separator between each two of them.
pub open spec fn joined(pieces: Seq<Seq<u8>>) -> Seq<u8>
    decreases pieces.len(),
{
    if pieces.len() == 0 {
        Seq::empty()
    } else if pieces.len() == 1 {
        pieces[0]
    } else {
        joined(pieces.drop_last()) + seq![SEPARATOR] + pieces.last()
    }
}

/// A segment that names something: it is neither empty nor `.`.
pub open spec fn is_name(segment: Seq<u8>) -> bool {
    segment.len() > 0 && segment != seq![DOT]
}

/// The segments that name something, in order.
pub open spec fn names(pieces: Seq<Seq<u8>>) -> Seq<Seq<u8>>
    decreases pieces.len(),
{
    if pieces.len() == 0 {
        pieces
    } else if is_name(pieces.last()) {
        names(pieces.drop_last()).push(pieces.last())
    } else {
        names(pieces.drop_last())
    }
}

/// The components of a path.
pub open spec fn components(path: Seq<u8>) -> Seq<Seq<u8>> {
    names(segments(path))
}

/// The component `..`, which steps out of a directory.
pub open spec fn is_traversal(name: Seq<u8>) -> bool {
    name == seq![DOT, DOT]
}

/// A component that can be created inside a directory and stays there: a
/// name other than `..`, without separator and without NUL.
pub open spec fn is_safe_name(name: Seq<u8>) -> bool {
    &&& is_name(name)
    &&& !is_traversal(name)
    &&& !name.contains(SEPARATOR)
    &&& !name.contains(0u8)
}

/// A relative path of which every component is safe: created component by
/// component below a directory, it names a place inside that directory.
pub open spec fn is_safe_path(path: Seq<Seq<u8>>) -> bool {
    forall|i: int| 0 <= i < path.len() ==> is_safe_name(#[trigger] path[i])
}

/// None of the pieces holds a separator.
pub open spec fn separator_free(pieces: Seq<Seq<u8>>) -> bool {
    forall|i: int| 0 <= i < pieces.len() ==> !(#[trigger] pieces[i]).contains(SEPARATOR)
}

/// The byte strings that a list of buffers holds.
pub open spec fn contents(parts: Seq<Vec<u8>>) -> Seq<Seq<u8>> {
    parts.map_values(|part: Vec<u8>| part@)
}

/// A path always has a last segment, and no segment holds a separator.
pub proof fn lemma_segments(path: Seq<u8>)
    ensures
        segments(path).len() >= 1,
        separator_free(segments(path)),
    decreases path.len(),
{
    if path.len() > 0 {
        lemma_segments(path.drop_last());
        let before = segments(path.drop_last());
        let all = segments(path);
        assert forall|i: int| 0 <= i < all.len() implies !(#[trigger] all[i]).contains(
            SEPARATOR,
        ) by {
            if i < before.len() - 1 {
                assert(all[i] == before[i]);
            } else if path.last() == SEPARATOR {
                if i < before.len() {
                    assert(all[i] == before[i]);
                }
            } else {
                let last = before.last();
                assert(!before[before.len() - 1].contains(SEPARATOR));
                if all[i].contains(SEPARATOR) {
                    let at = choose|at: int| 0 <= at < all[i].len() && all[i][at] == SEPARATOR;
                    assert(last[at] == SEPARATOR);
                    assert(last.contains(SEPARATOR));
                }
            }
        }
    }
}

/// The segments of a path, joined by separators, are the path: the segments
/// are what stands between its separators, nothing lost and nothing added.
pub proof fn lemma_segments_rejoin(path: Seq<u8>)
    ensures
        joined(segments(path)) == path,
    decreases path.len(),
{
    if path.len() == 0 {
        assert(joined(segments(path)) =~= path);
    } else {
        let rest = path.drop_last();
        let before = segments(rest);
        let all = segments(path);
        lemma_segments_rejoin(rest);
        lemma_segments(rest);
        if path.last() == SEPARATOR {
            assert(all.drop_last() =~= before);
            assert(joined(all) =~= rest + seq![SEPARATOR] + Seq::<u8>::empty());
        } else {
            let grown = before.last().push(path.last());
            if before.len() == 1 {
                assert(all =~= seq![grown]);
            } else {
                assert(all.drop_last() =~= before.drop_last());
                assert(joined(all) =~= joined(before.drop_last()) + seq![SEPARATOR] + grown);
            }
            assert(joined(all) =~= joined(before).push(path.last()));
        }
        assert(joined(all) =~= path);
    }
}

/// The names among some pieces are names, are no more than the pieces, and
/// hold no separator where the pieces hold none.
pub proof fn lemma_names(pieces: Seq<Seq<u8>>)
    ensures
        names(pieces).len() <= pieces.len(),
        forall|i: int| 0 <= i < names(pieces).len() ==> is_name(#[trigger] names(pieces)[i]),
        separator_free(pieces) ==> separator_free(names(pieces)),
    decreases pieces.len(),
{
    if pieces.len() > 0 {
        let rest = pieces.drop_last();
        lemma_names(rest);
        if separator_free(pieces) {
            assert forall|i: int| 0 <= i < rest.len() implies !(#[trigger] rest[i]).contains(
                SEPARATOR,
            ) by {
                assert(rest[i] == pieces[i]);
            }
            assert(!pieces[pieces.len() - 1].contains(SEPARATOR));
        }
    }
}

/// Every component of a path is a name without separator.
pub proof fn lemma_components(path: Seq<u8>)
    ensures
        forall|i: int|
            0 <= i < components(path).len() ==> is_name(#[trigger] components(path)[i]),
        separator_free(components(path)),
{
    lemma_segments(path);
    lemma_names(segments(path));
}

/// Tells whether a segment names something.
pub fn names_something(segment: &Vec<u8>) -> (named: bool)
    ensures
        named == is_name(segment@),
{
    if segment.len() == 0 {
        false
    } else if segment.len() == 1 && segment[0] == DOT {
        assert(segment@ =~= seq![DOT]);
        false
    } else {
        if segment.len() == 1 {
            assert(segment@[0] != seq![DOT][0]);
        }
        true
    }
}

/// Cuts a path into its components.
pub fn split_components(path: &[u8]) -> (parts: Vec<Vec<u8>>)
    ensures
        contents(parts@) == components(path@),
{
    let mut parts: Vec<Vec<u8>> = Vec::new();
    let mut current: Vec<u8> = Vec::new();
    let mut at: usize = 0;
    proof {
        assert(path@.take(0) =~= Seq::<u8>::empty());
        assert(segments(path@.take(0)).drop_last() =~= Seq::<Seq<u8>>::empty());
        assert(contents(parts@) =~= names(segments(path@.take(0)).drop_last()));
    }
    while at < path.len()
        invariant
            at <= path.len(),
            segments(path@.take(at as int)).len() >= 1,
            current@ == segments(path@.take(at as int)).last(),
            contents(parts@) == names(segments(path@.take(at as int)).drop_last()),
        decreases path.len() - at,
    {
        let ghost before = segments(path@.take(at as int));
        proof {
            assert(path@.take(at + 1).drop_last() =~= path@.take(at as int));
            assert(path@.take(at + 1).last() == path@[at as int]);
            assert(before =~= before.drop_last().push(before.last()));
        }
        if path[at] == SEPARATOR {
            if names_something(&current) {
                parts.push(current);
                assert(contents(parts@) =~= names(before));
            }
            current = Vec::new();
            assert(before.push(Seq::<u8>::empty()).drop_last() =~= before);
        } else {
            current.push(path[at]);
            let ghost grown = before.last().push(path@[at as int]);
            assert(before.drop_last().push(grown).drop_last() =~= before.drop_last());
        }
        at += 1;
    }
    proof {
        let all = segments(path@);
        assert(path@.take(at as int) =~= path@);
        assert(all =~= all.drop_last().push(all.last()));
    }
    if names_something(&current) {
        parts.push(current);
        assert(contents(parts@) =~= components(path@));
    }
    parts
}

} // verus!
