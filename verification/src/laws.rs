//! The buffer's laws that relate several operations: proofs that the gap
//! mechanics are invisible in the logical text, stated over the abstract
//! state (text, cursor) that the operations' contracts describe.

use crate::buffer::GapBuffer;
use crate::buffer::move_target;
use vstd::prelude::*;

verus! {

/// One insertion step, as a caller of the buffer performs it.
pub enum Edit {
    /// One character handed to `GapBuffer::insert`.
    Insert(char),
    /// The characters of a string handed to `GapBuffer::insert_str`.
    InsertStr(Seq<char>),
}

/// The text an edit contributes.
pub open spec fn edit_text(e: Edit) -> Seq<char> {
    match e {
        Edit::Insert(chr) => seq![chr],
        Edit::InsertStr(s) => s,
    }
}

/// All the text a sequence of edits contributes, in insertion order.
pub open spec fn edits_text(es: Seq<Edit>) -> Seq<char>
    decreases es.len(),
{
    if es.len() == 0 {
        Seq::<char>::empty()
    } else {
        edits_text(es.drop_last()) + edit_text(es.last())
    }
}

/// What one successful `insert` or `insert_str` call does to the abstract
/// state (text, cursor), exactly as the contracts of the two state it: the
/// contributed text is spliced in at the cursor, and the cursor ends up
/// just past it.
pub open spec fn apply_edit(t: Seq<char>, cursor: nat, e: Edit) -> (Seq<char>, nat) {
    (
        t.take(cursor as int) + edit_text(e) + t.skip(cursor as int),
        (cursor + edit_text(e).len()) as nat,
    )
}

/// The abstract state after a whole sequence of successful insertions.
pub open spec fn apply_edits(t: Seq<char>, cursor: nat, es: Seq<Edit>) -> (Seq<char>, nat)
    decreases es.len(),
{
    if es.len() == 0 {
        (t, cursor)
    } else {
        let prev = apply_edits(t, cursor, es.drop_last());
        apply_edit(prev.0, prev.1, es.last())
    }
}

/// `Seq::insert` — the shape `insert`'s contract uses — is the splice of a
/// single character at the insertion point, the shape `insert_str`'s
/// contract uses.
pub proof fn lemma_insert_is_splice(t: Seq<char>, i: int, chr: char)
    requires
        0 <= i <= t.len(),
    ensures
        t.insert(i, chr) == t.take(i) + seq![chr] + t.skip(i),
{
    assert(t.insert(i, chr) =~= t.take(i) + seq![chr] + t.skip(i));
}

/// Round trip: a fresh buffer taken through any sequence of successful
/// `insert`/`insert_str` calls holds exactly the concatenation of the
/// inserted text, in insertion order, with the cursor at its end — the gap
/// is purely an internal optimization, invisible in the logical content.
pub proof fn lemma_round_trip(es: Seq<Edit>)
    ensures
        apply_edits(Seq::<char>::empty(), 0, es).0 == edits_text(es),
        apply_edits(Seq::<char>::empty(), 0, es).1 == edits_text(es).len(),
    decreases es.len(),
{
    if es.len() == 0 {
        assert(apply_edits(Seq::<char>::empty(), 0, es).0 =~= edits_text(es));
    } else {
        lemma_round_trip(es.drop_last());
        let prev = apply_edits(Seq::<char>::empty(), 0, es.drop_last());
        assert(prev.0.take(prev.1 as int) =~= prev.0);
        assert(prev.0.skip(prev.1 as int) =~= Seq::<char>::empty());
        assert(apply_edits(Seq::<char>::empty(), 0, es).0 =~= edits_text(es));
    }
}

/// Idempotence of cursor movement: two `move_to` calls in a row with the
/// same target leave the buffer, bit for bit, as the first call left it.
/// The hypotheses are exactly what `move_to`'s contract gives a caller for
/// the two transitions `b0 -> b1 -> b2`.
pub proof fn lemma_move_to_idempotent(b0: GapBuffer, b1: GapBuffer, b2: GapBuffer, x: usize)
    requires
        b0.wf(),
        b1.wf(),
        b1.text() == b0.text(),
        b1.cursor() == move_target(b0.text().len(), x as nat),
        b2.wf(),
        b2.text() == b1.text(),
        b2.cursor() == move_target(b1.text().len(), x as nat),
        b1.cursor() == move_target(b1.text().len(), x as nat) ==> b2 == b1,
    ensures
        b2 == b1,
{
}

/// Cursor addressing: after `move_to(k)` with `k` inside the text and then
/// a successful `insert(chr)`, the new character stands at text position
/// `k`, with the old text split around it. The hypotheses are exactly what
/// the two contracts give a caller for the transitions `b0 -> b1 -> b2`.
pub proof fn lemma_cursor_addressing(
    b0: GapBuffer,
    b1: GapBuffer,
    b2: GapBuffer,
    k: usize,
    chr: char,
)
    requires
        b0.wf(),
        k <= b0.text().len(),
        b1.wf(),
        b1.text() == b0.text(),
        b1.cursor() == move_target(b0.text().len(), k as nat),
        b2.wf(),
        b2.text() == b1.text().insert(b1.cursor() as int, chr),
    ensures
        b2.text() == b0.text().take(k as int) + seq![chr] + b0.text().skip(k as int),
{
    lemma_insert_is_splice(b1.text(), b1.cursor() as int, chr);
}

} // verus!
