//! Every operation on a text keeps the cursor and the selection in it.

use crate::model::{
    advanced, behind, holds, lines_of, split, with, without, Change, History, TextState,
};
use vstd::prelude::*;

verus! {

/// A recorded change keeps the history in order.
pub proof fn lemma_recorded_wf(history: History, change: Change)
    requires
        history.wf(),
        change.before.len() > 0,
        change.after.len() > 0,
        0 <= change.from.0 && 0 <= change.from.1,
        0 <= change.to.0 && 0 <= change.to.1,
    ensures
        history.recorded(change).wf(),
{
    let new = history.recorded(change);
    if history.limit > 0 {
        assert forall|i: int| 0 <= i < new.changes.len() implies ({
            &&& (#[trigger] new.changes[i]).before.len() > 0
            &&& new.changes[i].after.len() > 0
            &&& 0 <= new.changes[i].from.0 && 0 <= new.changes[i].from.1
            &&& 0 <= new.changes[i].to.0 && 0 <= new.changes[i].to.1
        }) by {
            if i < new.changes.len() - 1 {
                let full = history.changes.len() == history.limit;
                let j = if full {
                    i + 1
                } else {
                    i
                };
                assert(new.changes[i] == history.changes[j]);
            }
        }
    }
}

/// A change with the cursor in the new text and nothing selected keeps the text in order.
pub proof fn lemma_changed_wf(
    text: TextState,
    lines: Seq<Seq<char>>,
    from: (int, int),
    to: (int, int),
)
    requires
        text.wf(),
        text.anchor is None,
        holds(lines, to),
        0 <= from.0 && 0 <= from.1,
    ensures
        text.changed(lines, from, to).wf(),
{
    lemma_recorded_wf(text.history, Change { before: text.lines, from, after: lines, to });
}

/// The start of what is deleted is in what is left.
pub proof fn lemma_without_holds(lines: Seq<Seq<char>>, start: (int, int), end: (int, int))
    requires
        holds(lines, start),
        start.0 <= end.0,
        end.0 < lines.len() ==> holds(lines, end),
    ensures
        holds(without(lines, start, end), start),
{
    let new = without(lines, start, end);
    let head = lines[start.0].take(start.1);
    if end.0 < lines.len() {
        assert(new[start.0] == head + lines[end.0].skip(end.1));
    } else {
        assert(new[start.0] == head);
    }
}

/// The place behind what is put in is in the new text.
pub proof fn lemma_with_holds(lines: Seq<Seq<char>>, place: (int, int), pieces: Seq<Seq<char>>)
    requires
        holds(lines, place),
        pieces.len() > 0,
    ensures
        holds(with(lines, place, pieces), behind(place, pieces)),
{
    let new = with(lines, place, pieces);
    let head = lines[place.0].take(place.1);
    let tail = lines[place.0].skip(place.1);
    if pieces.len() == 1 {
        assert(new[place.0] == head + pieces[0] + tail);
    } else {
        let front = lines.take(place.0).push(head + pieces[0]);
        let middle = pieces.subrange(1, pieces.len() - 1).push(pieces.last() + tail);
        assert(middle.len() == pieces.len() - 1);
        assert(new[place.0 + pieces.len() - 1] == middle[pieces.len() - 2]);
    }
}

/// What is reached by advancing is in the text, or behind its last line.
pub proof fn lemma_advanced(lines: Seq<Seq<char>>, place: (int, int), count: int)
    requires
        place.0 >= lines.len() || holds(lines, place),
        place.0 <= lines.len(),
        count >= 0,
    ensures
        ({
            let end = advanced(lines, place, count);
            &&& place.0 <= end.0 <= lines.len()
            &&& end.0 < lines.len() ==> holds(lines, end)
            &&& end.0 == place.0 ==> end.1 == place.1 + count || place.0 == lines.len()
            &&& 0 <= end.1
        }),
    decreases lines.len() - place.0,
{
    if place.0 < lines.len() {
        let left = lines[place.0].len() - place.1;
        if count > left {
            lemma_advanced(lines, (place.0 + 1, 0), count - left - 1);
        }
    }
}

/// What is split at its line feeds holds none.
pub proof fn lemma_split_clean(text: Seq<char>)
    ensures
        split(text).len() > 0,
        forall|i: int| 0 <= i < split(text).len() ==> !(#[trigger] split(text)[i]).contains('\n'),
    decreases text.len(),
{
    if text.len() > 0 {
        let shorter = split(text.drop_last());
        lemma_split_clean(text.drop_last());
        assert forall|i: int| 0 <= i < split(text).len() implies !(#[trigger] split(
            text,
        )[i]).contains('\n') by {
            if text.last() == '\n' {
                if i < shorter.len() {
                    assert(split(text)[i] == shorter[i]);
                }
            } else if i < shorter.len() - 1 {
                assert(split(text)[i] == shorter[i]);
            } else {
                let last = shorter.last().push(text.last());
                assert(split(text)[i] == last);
                assert(!shorter[shorter.len() - 1].contains('\n'));
                assert forall|k: int| 0 <= k < last.len() implies last[k] != '\n' by {
                    if k < shorter.last().len() {
                        assert(last[k] == shorter.last()[k]);
                        assert(shorter.last().contains(last[k]));
                    }
                }
            }
        }
    }
}

/// What is yanked as a text can be pasted.
pub broadcast proof fn lemma_yanking_pastes(state: TextState, text: Seq<char>)
    ensures
        (#[trigger] state.yanking(text)).yank.pastes(),
{
    lemma_split_clean(text);
    let pieces = lines_of(text);
    assert(pieces.len() == split(text).len());
    if pieces.len() == 1 {
        let line = split(text)[0];
        let piece = pieces[0];
        assert forall|k: int| 0 <= k < piece.len() implies piece[k] != '\n' by {
            assert(piece[k] == line[k]);
            assert(line.contains(line[k]));
        }
    }
}

pub broadcast proof fn lemma_anchored_wf(text: TextState)
    requires
        text.wf(),
    ensures
        (#[trigger] text.anchored()).wf(),
{
}

pub broadcast proof fn lemma_unanchored_wf(text: TextState)
    requires
        text.wf(),
    ensures
        (#[trigger] text.unanchored()).wf(),
{
}

pub broadcast proof fn lemma_copied_wf(text: TextState)
    requires
        text.wf(),
    ensures
        (#[trigger] text.copied()).wf(),
{
}

pub broadcast proof fn lemma_erased_wf(text: TextState)
    requires
        text.wf(),
    ensures
        (#[trigger] text.erased()).wf(),
{
    if let Some((start, end)) = text.selection() {
        lemma_without_holds(text.lines, start, end);
        lemma_changed_wf(text.unanchored(), without(text.lines, start, end), end, start);
    }
}

pub broadcast proof fn lemma_cut_wf(text: TextState)
    requires
        text.wf(),
    ensures
        (#[trigger] text.cut()).wf(),
{
    lemma_erased_wf(text);
}

/// Putting text in where nothing is selected keeps the text in order.
pub proof fn lemma_inserted_wf(text: TextState, pieces: Seq<Seq<char>>)
    requires
        text.wf(),
        text.anchor is None,
        pieces.len() > 0,
    ensures
        text.inserted(pieces).wf(),
{
    lemma_with_holds(text.lines, text.cursor, pieces);
    lemma_changed_wf(
        text,
        with(text.lines, text.cursor, pieces),
        text.cursor,
        behind(text.cursor, pieces),
    );
}

pub broadcast proof fn lemma_pasted_wf(text: TextState)
    requires
        text.wf(),
        text.yank.pastes(),
    ensures
        (#[trigger] text.pasted()).wf(),
{
    lemma_erased_wf(text);
    lemma_inserted_wf(text.erased(), text.yank.pieces());
}

pub broadcast proof fn lemma_typed_wf(text: TextState, typed: Seq<char>)
    requires
        text.wf(),
    ensures
        (#[trigger] text.typed(typed)).wf(),
{
    lemma_erased_wf(text);
    lemma_split_clean(typed);
    lemma_inserted_wf(text.erased(), lines_of(typed));
}

pub broadcast proof fn lemma_yanking_wf(text: TextState, yanked: Seq<char>)
    requires
        text.wf(),
    ensures
        (#[trigger] text.yanking(yanked)).wf(),
{
}

pub broadcast proof fn lemma_broken_wf(text: TextState)
    requires
        text.wf(),
    ensures
        (#[trigger] text.broken()).wf(),
{
    lemma_erased_wf(text);
    lemma_inserted_wf(text.erased(), seq![Seq::empty(), Seq::empty()]);
}

pub broadcast proof fn lemma_deleted_wf(text: TextState, count: int)
    requires
        text.wf(),
        count >= 0,
    ensures
        (#[trigger] text.deleted(count)).wf(),
{
    lemma_erased_wf(text);
    let end = advanced(text.lines, text.cursor, count);
    lemma_advanced(text.lines, text.cursor, count);
    lemma_without_holds(text.lines, text.cursor, end);
    lemma_changed_wf(
        text.unanchored(),
        without(text.lines, text.cursor, end),
        end,
        text.cursor,
    );
}

pub broadcast proof fn lemma_deleted_to_end_wf(text: TextState)
    requires
        text.wf(),
    ensures
        (#[trigger] text.deleted_to_end()).wf(),
{
    lemma_erased_wf(text);
    let end = if text.cursor.1 < text.line().len() {
        text.line_end()
    } else {
        (text.cursor.0 + 1, 0)
    };
    lemma_without_holds(text.lines, text.cursor, end);
    lemma_changed_wf(
        text.unanchored(),
        without(text.lines, text.cursor, end),
        end,
        text.cursor,
    );
}

pub broadcast proof fn lemma_undone_wf(text: TextState)
    requires
        text.wf(),
    ensures
        (#[trigger] text.undone()).wf(),
{
    if text.history.done > 0 {
        let change = text.history.changes[text.history.done - 1];
        assert(change.before.len() > 0);
    }
}

pub broadcast proof fn lemma_redone_wf(text: TextState)
    requires
        text.wf(),
    ensures
        (#[trigger] text.redone()).wf(),
{
    if text.history.done < text.history.changes.len() {
        let change = text.history.changes[text.history.done];
        assert(change.after.len() > 0);
    }
}

pub broadcast group group_wf {
    lemma_yanking_pastes,
    lemma_anchored_wf,
    lemma_unanchored_wf,
    lemma_copied_wf,
    lemma_cut_wf,
    lemma_pasted_wf,
    lemma_typed_wf,
    lemma_yanking_wf,
    lemma_broken_wf,
    lemma_deleted_wf,
    lemma_deleted_to_end_wf,
    lemma_undone_wf,
    lemma_redone_wf,
}

} // verus!
