//! The history of a drawing's changes: the diffs made, oldest first, and how many of them are
//! in effect; undo steps back over the last diff in effect, redo forward over the next one,
//! and a new diff drops those that were undone.

use vstd::prelude::*;

verus! {

/// The diffs kept after recording `diff` in `diffs`, of which the first `position` are in
/// effect: the undone ones are dropped and `diff` comes last.
pub open spec fn recorded<D>(diffs: Seq<D>, position: int, diff: D) -> Seq<D> {
    if position <= diffs.len() {
        diffs.take(position).push(diff)
    } else {
        diffs.push(diff)
    }
}

/// What undoing gives at `position`: the index of the diff to undo and the new position,
/// when a diff is in effect.
pub open spec fn undone(position: int) -> Option<(int, int)> {
    if position > 0 {
        Some((position - 1, position - 1))
    } else {
        None
    }
}

/// What redoing gives at `position` with `len` diffs kept: the index of the diff to redo and
/// the new position, when a diff was undone.
pub open spec fn redone(position: int, len: int) -> Option<(int, int)> {
    if position < len {
        Some((position, position + 1))
    } else {
        None
    }
}

/// Records `diff` in the history `diffs`, of which the first `position` are in effect, as
/// `recorded` says; `diff` is in effect.
pub fn record_diff<D>(diffs: &mut Vec<D>, position: &mut usize, diff: D)
    requires
        *old(position) < usize::MAX,
    ensures
        final(diffs)@ == recorded(old(diffs)@, *old(position) as int, diff),
        *final(position) == *old(position) + 1,
{
    diffs.truncate(*position);
    diffs.push(diff);
    *position = *position + 1;
}

/// Forgets the whole history: no diff is kept, none is in effect.
pub fn clear_history<D>(diffs: &mut Vec<D>, position: &mut usize)
    ensures
        final(diffs)@ == Seq::<D>::empty(),
        *final(position) == 0,
{
    diffs.clear();
    *position = 0;
}

/// Steps back over the last diff in effect, as `undone` says, and gives the index of the
/// diff to undo; with none in effect, nothing happens.
pub fn undo_step(position: &mut usize) -> (r: Option<usize>)
    ensures
        match undone(*old(position) as int) {
            Some((i, p)) => r == Some(i as usize) && *final(position) == p,
            None => r is None && *final(position) == *old(position),
        },
{
    if *position > 0 {
        *position = *position - 1;
        Some(*position)
    } else {
        None
    }
}

/// Steps forward over the next of the `len` diffs kept, as `redone` says, and gives the index
/// of the diff to redo; with none undone, nothing happens.
pub fn redo_step(position: &mut usize, len: usize) -> (r: Option<usize>)
    ensures
        match redone(*old(position) as int, len as int) {
            Some((i, p)) => r == Some(i as usize) && *final(position) == p,
            None => r is None && *final(position) == *old(position),
        },
{
    if *position < len {
        let i = *position;
        *position = i + 1;
        Some(i)
    } else {
        None
    }
}

/// Undoing right after recording a diff undoes that very diff, and redoing then redoes it
/// and brings the position back to where recording left it.
pub proof fn law_record_undo_redo<D>(diffs: Seq<D>, position: int, diff: D)
    requires
        0 <= position <= diffs.len(),
    ensures
        undone(position + 1) == Some((position, position)),
        recorded(diffs, position, diff)[position] == diff,
        redone(position, recorded(diffs, position, diff).len() as int) == Some((position, position + 1)),
{
}

/// Redoing after undoing redoes the diff just undone and brings the position back.
pub proof fn law_undo_then_redo(position: int, len: int)
    requires
        0 < position <= len,
    ensures
        undone(position) matches Some((i, p)) && redone(p, len) == Some((i, position)),
{
}

/// Recording a diff after undoing drops the undone diff: the diffs before it stay, and the
/// new diff takes its place.
pub proof fn law_record_after_undo<D>(diffs: Seq<D>, position: int, diff: D)
    requires
        0 < position <= diffs.len(),
    ensures
        recorded(diffs, position - 1, diff) == diffs.take(position - 1).push(diff),
        recorded(diffs, position - 1, diff).len() == position,
        redone(position, recorded(diffs, position - 1, diff).len() as int) is None,
{
}

} // verus!
