//! A fixed-capacity gap buffer: the live text sits on either side of a
//! movable empty region (the gap), so that insertion and deletion at the
//! cursor never shift more than the characters between the old and the new
//! cursor position.

use vstd::prelude::*;

verus! {

/// Total number of character slots in a buffer; the capacity never grows,
/// and running out of it is reported as [`BufferError::Overflow`].
pub const BUFFER_LEN: usize = 1024;

/// The sentinel held by every unused slot. Each slot vacated by a gap
/// relocation is reset to it, so a later relocation can never resurface a
/// stale character.
pub const EMPTY_SLOT: char = '\0';

/// The one failure a buffer can report: an insertion asked for more slots
/// than the gap has left.
#[derive(Clone, Copy, Debug, PartialEq, Eq)]
pub enum BufferError {
    Overflow,
}

/// A fixed array of [`BUFFER_LEN`] character slots, partitioned into
/// `[0, gap_start)` = text before the cursor, `[gap_start, gap_end)` = the
/// gap, and `[gap_end, BUFFER_LEN)` = text after the cursor.
///
/// `gap_end` is exclusive (one past the last gap slot), so that every empty
/// gap is representable — in particular a full buffer with the cursor at
/// position 0, where an inclusive end index would have to be negative.
///
/// `gap_start` doubles as the cursor: it counts the characters logically
/// before the insertion point.
pub struct GapBuffer {
    buffer: Vec<char>,
    length: usize,
    gap_start: usize,
    gap_end: usize,
}

/// Where a request to move the cursor to `new_idx` actually puts it: a
/// request past the end of the stored text addresses no live character and
/// is clamped to the end.
pub open spec fn move_target(len: nat, new_idx: nat) -> nat {
    if new_idx <= len {
        new_idx
    } else {
        len
    }
}

/// How a sentinel in the region before the cursor is shown by
/// [`GapBuffer::debug_string`].
pub open spec fn debug_char_before(chr: char) -> char {
    if chr == EMPTY_SLOT {
        '-'
    } else {
        chr
    }
}

/// How a sentinel in the region after the cursor is shown by
/// [`GapBuffer::debug_string`].
pub open spec fn debug_char_after(chr: char) -> char {
    if chr == EMPTY_SLOT {
        '_'
    } else {
        chr
    }
}

/// Relies on `String::push`: appends the given character to the end of the
/// string, leaving everything before it unchanged.
#[verifier::external_body]
fn push_char(s: &mut String, chr: char)
    ensures
        final(s)@ == old(s)@.push(chr),
{
    s.push(chr);
}

/// The backing sequence `buf` holds exactly the text `t` with a clean gap at
/// `[gs, ge)`: `t`'s first `gs` characters before the gap, the rest after it,
/// and nothing but [`EMPTY_SLOT`] in between. This is the picture that the
/// gap-relocation loops maintain while the gap slides one slot at a time.
spec fn matches_gap(buf: Seq<char>, t: Seq<char>, gs: int, ge: int) -> bool {
    &&& buf.len() == BUFFER_LEN
    &&& 0 <= gs <= ge <= BUFFER_LEN
    &&& t.len() == gs + (BUFFER_LEN - ge)
    &&& forall|j: int| 0 <= j < gs ==> buf[j] == t[j]
    &&& forall|j: int| gs <= j < ge ==> buf[j] == EMPTY_SLOT
    &&& forall|j: int| ge <= j < BUFFER_LEN ==> buf[j] == t[j - ge + gs]
}

/// A backing sequence with a clean gap at `[gs, ge)` renders exactly `t`.
proof fn lemma_matches_text(buf: Seq<char>, t: Seq<char>, gs: int, ge: int)
    requires
        matches_gap(buf, t, gs, ge),
    ensures
        buf.subrange(0, gs) + buf.subrange(ge, BUFFER_LEN as int) == t,
{
    assert(buf.subrange(0, gs) + buf.subrange(ge, BUFFER_LEN as int) =~= t);
}

impl GapBuffer {
    /// A well-formed buffer is its own text with a clean gap at
    /// `[gap_start, gap_end)`.
    proof fn lemma_wf_matches(&self)
        requires
            self.wf(),
        ensures
            matches_gap(self.buffer@, self.text(), self.gap_start as int, self.gap_end as int),
    {
        assert(self.text().len() == self.gap_start + (BUFFER_LEN - self.gap_end));
    }

    /// The logical text: the characters before the gap followed by the
    /// characters after it. The gap itself is invisible here.
    pub closed spec fn text(&self) -> Seq<char> {
        self.buffer@.subrange(0, self.gap_start as int) + self.buffer@.subrange(
            self.gap_end as int,
            BUFFER_LEN as int,
        )
    }

    /// The cursor position: how many characters stand before the insertion
    /// point. Always equal to the first gap index.
    pub closed spec fn cursor(&self) -> nat {
        self.gap_start as nat
    }

    /// How many slots the gap has left for insertion.
    pub closed spec fn spec_gap_size(&self) -> nat {
        (self.gap_end - self.gap_start) as nat
    }

    /// Well-formedness, established by [`GapBuffer::new`] and preserved by
    /// every operation: the gap indices are ordered and in bounds, `length`
    /// counts exactly the live characters, and every gap slot holds
    /// [`EMPTY_SLOT`].
    pub closed spec fn wf(&self) -> bool {
        &&& self.buffer@.len() == BUFFER_LEN
        &&& self.gap_start <= self.gap_end <= BUFFER_LEN
        &&& self.length == self.gap_start + (BUFFER_LEN - self.gap_end)
        &&& forall|i: int| self.gap_start <= i < self.gap_end ==> self.buffer@[i] == EMPTY_SLOT
    }

    /// Capacity invariant: in every well-formed buffer the live text and
    /// the remaining gap partition the fixed capacity, so neither can grow
    /// at the other's expense unnoticed.
    pub proof fn lemma_length_gap_capacity(&self)
        requires
            self.wf(),
        ensures
            self.text().len() + self.spec_gap_size() == BUFFER_LEN,
    {
    }

    /// The cursor can never stand beyond the end of the text.
    pub proof fn lemma_cursor_in_range(&self)
        requires
            self.wf(),
        ensures
            self.cursor() <= self.text().len(),
    {
    }

    /// An empty buffer: no text, the gap spanning the whole capacity, the
    /// cursor at position 0.
    pub fn new() -> (r: GapBuffer)
        ensures
            r.wf(),
            r.text() == Seq::<char>::empty(),
            r.cursor() == 0,
    {
        GapBuffer::default()
    }

    /// The number of live characters currently stored.
    pub fn length(&self) -> (r: usize)
        requires
            self.wf(),
        ensures
            r == self.text().len(),
    {
        self.length
    }

    /// The cursor position; also the index of the first gap slot.
    pub fn gap_start(&self) -> (r: usize)
        ensures
            r == self.cursor(),
    {
        self.gap_start
    }

    /// Writes `chr` at the cursor and advances the cursor past it. Succeeds
    /// exactly when the buffer is not full; a full buffer reports
    /// [`BufferError::Overflow`] and is left unchanged.
    pub fn insert(&mut self, chr: char) -> (res: Result<(), BufferError>)
        requires
            old(self).wf(),
        ensures
            final(self).wf(),
            res is Ok <==> old(self).text().len() < BUFFER_LEN,
            res is Ok ==> final(self).text() == old(self).text().insert(
                old(self).cursor() as int,
                chr,
            ) && final(self).cursor() == old(self).cursor() + 1,
            res is Err ==> *final(self) == *old(self) && res == Err::<(), BufferError>(
                BufferError::Overflow,
            ),
    {
        if self.gap_start == self.gap_end {
            return Err(BufferError::Overflow);
        }
        self.buffer.set(self.gap_start, chr);
        self.gap_start = self.gap_start + 1;
        self.length = self.length + 1;
        proof {
            assert(self.text() =~= old(self).text().insert(old(self).cursor() as int, chr));
        }
        Ok(())
    }

    /// Writes every character of `string` at the cursor, in order, and
    /// leaves the cursor after the last of them. The whole string is
    /// inserted, or — when the gap has fewer slots than `string` has
    /// characters — nothing is: the check comes before any write, so a
    /// caller never observes a half-inserted string. Character count, not
    /// byte count, is what must fit.
    pub fn insert_str(&mut self, string: &str) -> (res: Result<(), BufferError>)
        requires
            old(self).wf(),
        ensures
            final(self).wf(),
            res is Ok <==> string@.len() <= BUFFER_LEN - old(self).text().len(),
            res is Ok ==> final(self).text() == old(self).text().take(old(self).cursor() as int)
                + string@ + old(self).text().skip(old(self).cursor() as int)
                && final(self).cursor() == old(self).cursor() + string@.len(),
            res is Err ==> *final(self) == *old(self) && res == Err::<(), BufferError>(
                BufferError::Overflow,
            ),
    {
        let n: usize = string.unicode_len();
        if n > self.gap_end - self.gap_start {
            return Err(BufferError::Overflow);
        }
        let ghost pre = *self;
        let mut i: usize = 0;
        while i < n
            invariant
                pre.wf(),
                n == string@.len(),
                n <= pre.gap_end - pre.gap_start,
                i <= n,
                self.buffer@.len() == BUFFER_LEN,
                self.gap_start == pre.gap_start + i,
                self.gap_end == pre.gap_end,
                self.length == pre.length,
                forall|j: int|
                    0 <= j < BUFFER_LEN && !(pre.gap_start <= j < pre.gap_start + i)
                        ==> self.buffer@[j] == pre.buffer@[j],
                forall|j: int| 0 <= j < i ==> self.buffer@[pre.gap_start + j] == string@[j],
            decreases n - i,
        {
            let chr = string.get_char(i);
            self.buffer.set(self.gap_start, chr);
            self.gap_start = self.gap_start + 1;
            i = i + 1;
        }
        self.length = self.length + n;
        proof {
            assert forall|j: int| self.gap_start <= j < self.gap_end implies self.buffer@[j]
                == EMPTY_SLOT by {
                assert(self.buffer@[j] == pre.buffer@[j]);
            }
            assert(self.text() =~= pre.text().take(pre.cursor() as int) + string@
                + pre.text().skip(pre.cursor() as int));
        }
        Ok(())
    }

    /// Removes the character immediately before the cursor and clears its
    /// slot back to [`EMPTY_SLOT`]. With the cursor at position 0 there is
    /// nothing before it: the call is a no-op, not an error.
    pub fn remove(&mut self)
        requires
            old(self).wf(),
        ensures
            final(self).wf(),
            old(self).cursor() == 0 ==> *final(self) == *old(self),
            old(self).cursor() > 0 ==> final(self).text() == old(self).text().remove(
                old(self).cursor() - 1,
            ) && final(self).cursor() == old(self).cursor() - 1,
    {
        if self.gap_start > 0 {
            self.gap_start = self.gap_start - 1;
            self.buffer.set(self.gap_start, EMPTY_SLOT);
            self.length = self.length - 1;
            proof {
                assert(self.text() =~= old(self).text().remove(old(self).cursor() - 1));
            }
        }
    }

    /// Removes the `n` characters immediately before the cursor in one step,
    /// clearing their slots. A request for more characters than stand before
    /// the cursor (and a request for none) is a no-op: the buffer never does
    /// a partial removal.
    pub fn remove_n(&mut self, n: usize)
        requires
            old(self).wf(),
        ensures
            final(self).wf(),
            n == 0 || n > old(self).cursor() ==> *final(self) == *old(self),
            1 <= n <= old(self).cursor() ==> final(self).text() == old(self).text().take(
                old(self).cursor() - n,
            ) + old(self).text().skip(old(self).cursor() as int) && final(self).cursor() == old(
                self,
            ).cursor() - n,
    {
        if n == 0 || n > self.gap_start {
            return ;
        }
        let ghost pre = *self;
        let mut i: usize = 0;
        while i < n
            invariant
                pre.wf(),
                0 < n <= pre.gap_start,
                i <= n,
                self.buffer@.len() == BUFFER_LEN,
                self.gap_start == pre.gap_start - i,
                self.gap_end == pre.gap_end,
                self.length == pre.length,
                forall|j: int|
                    0 <= j < BUFFER_LEN && !(pre.gap_start - i <= j < pre.gap_start)
                        ==> self.buffer@[j] == pre.buffer@[j],
                forall|j: int|
                    pre.gap_start - i <= j < pre.gap_start ==> self.buffer@[j] == EMPTY_SLOT,
            decreases n - i,
        {
            self.gap_start = self.gap_start - 1;
            self.buffer.set(self.gap_start, EMPTY_SLOT);
            i = i + 1;
        }
        self.length = self.length - n;
        proof {
            assert forall|j: int| self.gap_start <= j < self.gap_end implies self.buffer@[j]
                == EMPTY_SLOT by {
                if pre.gap_start <= j {
                    assert(self.buffer@[j] == pre.buffer@[j]);
                }
            }
            assert(self.text() =~= pre.text().take(pre.cursor() - n) + pre.text().skip(
                pre.cursor() as int,
            ));
        }
    }

    /// Repositions the gap — and with it the cursor — at `new_idx`,
    /// relocating only the characters between the old and the new position
    /// and clearing every vacated slot. The text is untouched. A `new_idx`
    /// beyond the stored text addresses no live character and is clamped to
    /// the end of the text; a move to the position the cursor already holds
    /// leaves the buffer exactly as it was.
    pub fn move_to(&mut self, new_idx: usize)
        requires
            old(self).wf(),
        ensures
            final(self).wf(),
            final(self).text() == old(self).text(),
            final(self).cursor() == move_target(old(self).text().len(), new_idx as nat),
            old(self).cursor() == move_target(old(self).text().len(), new_idx as nat)
                ==> *final(self) == *old(self),
    {
        proof {
            assert(self.text().len() == self.length);
        }
        let target: usize = if new_idx > self.length {
            self.length
        } else {
            new_idx
        };
        if target == self.gap_start {
            return ;
        }
        let ghost pre = *self;
        proof {
            pre.lemma_wf_matches();
        }
        if target < self.gap_start {
            // The gap slides left one slot at a time: the character just
            // before it moves to the slot just vacated at its right end.
            let shift: usize = self.gap_start - target;
            let mut i: usize = 0;
            while i < shift
                invariant
                    pre.wf(),
                    target < pre.gap_start,
                    shift == pre.gap_start - target,
                    i <= shift,
                    self.gap_start == pre.gap_start,
                    self.gap_end == pre.gap_end,
                    self.length == pre.length,
                    matches_gap(
                        self.buffer@,
                        pre.text(),
                        pre.gap_start - i,
                        pre.gap_end - i,
                    ),
                decreases shift - i,
            {
                let src: usize = self.gap_start - 1 - i;
                let dst: usize = self.gap_end - 1 - i;
                let chr = self.buffer[src];
                self.buffer.set(src, EMPTY_SLOT);
                self.buffer.set(dst, chr);
                i = i + 1;
            }
            self.gap_start = target;
            self.gap_end = self.gap_end - shift;
        } else {
            // The gap slides right: the character just after it moves to the
            // slot vacated at its left end.
            let shift: usize = target - self.gap_start;
            let mut i: usize = 0;
            while i < shift
                invariant
                    pre.wf(),
                    pre.gap_start < target,
                    target <= pre.length,
                    shift == target - pre.gap_start,
                    i <= shift,
                    self.gap_start == pre.gap_start,
                    self.gap_end == pre.gap_end,
                    self.length == pre.length,
                    matches_gap(
                        self.buffer@,
                        pre.text(),
                        pre.gap_start + i,
                        pre.gap_end + i,
                    ),
                decreases shift - i,
            {
                let src: usize = self.gap_end + i;
                let dst: usize = self.gap_start + i;
                let chr = self.buffer[src];
                self.buffer.set(src, EMPTY_SLOT);
                self.buffer.set(dst, chr);
                i = i + 1;
            }
            self.gap_start = target;
            self.gap_end = self.gap_end + shift;
        }
        proof {
            lemma_matches_text(
                self.buffer@,
                pre.text(),
                self.gap_start as int,
                self.gap_end as int,
            );
        }
    }

    /// How many more characters fit before the buffer overflows; zero when
    /// it is full.
    pub fn gap_size(&self) -> (r: usize)
        requires
            self.wf(),
        ensures
            r == self.spec_gap_size(),
            r == BUFFER_LEN - self.text().len(),
    {
        self.gap_end - self.gap_start
    }
}

impl GapBuffer {
    /// The debugging projection of the buffer: the text before the cursor
    /// with every sentinel shown as `-`, three dots standing for the gap,
    /// then the text after the cursor with every sentinel shown as `_`.
    pub open spec fn debug_view(&self) -> Seq<char> {
        Seq::new(self.cursor(), |j: int| debug_char_before(self.text()[j])) + seq!['.', '.', '.']
            + Seq::new(
            (self.text().len() - self.cursor()) as nat,
            |j: int| debug_char_after(self.text()[self.cursor() + j]),
        )
    }

    /// Renders the logical text, a pure read-only projection of the two
    /// live regions.
    pub fn to_string(&self) -> (r: String)
        requires
            self.wf(),
        ensures
            r@ == self.text(),
    {
        let mut r = String::new();
        let mut i: usize = 0;
        while i < self.gap_start
            invariant
                self.wf(),
                i <= self.gap_start,
                r@ == self.buffer@.subrange(0, i as int),
            decreases self.gap_start - i,
        {
            let chr = self.buffer[i];
            push_char(&mut r, chr);
            i = i + 1;
            proof {
                assert(r@ =~= self.buffer@.subrange(0, i as int));
            }
        }
        let mut j: usize = self.gap_end;
        while j < BUFFER_LEN
            invariant
                self.wf(),
                self.gap_end <= j <= BUFFER_LEN,
                r@ == self.buffer@.subrange(0, self.gap_start as int) + self.buffer@.subrange(
                    self.gap_end as int,
                    j as int,
                ),
            decreases BUFFER_LEN - j,
        {
            let chr = self.buffer[j];
            push_char(&mut r, chr);
            j = j + 1;
            proof {
                assert(r@ =~= self.buffer@.subrange(0, self.gap_start as int)
                    + self.buffer@.subrange(self.gap_end as int, j as int));
            }
        }
        r
    }

    /// Renders the internal layout for debugging: sentinels in the live
    /// regions are made visible and the gap is drawn as three dots.
    pub fn debug_string(&self) -> (r: String)
        requires
            self.wf(),
        ensures
            r@ == self.debug_view(),
    {
        proof {
            self.lemma_wf_matches();
        }
        let mut r = String::new();
        let mut i: usize = 0;
        while i < self.gap_start
            invariant
                self.wf(),
                i <= self.gap_start,
                r@.len() == i,
                forall|k: int| 0 <= k < i ==> r@[k] == debug_char_before(self.buffer@[k]),
            decreases self.gap_start - i,
        {
            let chr = self.buffer[i];
            let shown = if chr == EMPTY_SLOT {
                '-'
            } else {
                chr
            };
            push_char(&mut r, shown);
            i = i + 1;
        }
        push_char(&mut r, '.');
        push_char(&mut r, '.');
        push_char(&mut r, '.');
        let mut j: usize = self.gap_end;
        while j < BUFFER_LEN
            invariant
                self.wf(),
                self.gap_end <= j <= BUFFER_LEN,
                r@.len() == self.gap_start + 3 + (j - self.gap_end),
                forall|k: int|
                    0 <= k < self.gap_start ==> r@[k] == debug_char_before(self.buffer@[k]),
                forall|k: int| self.gap_start <= k < self.gap_start + 3 ==> r@[k] == '.',
                forall|k: int|
                    self.gap_end <= k < j ==> r@[self.gap_start + 3 + (k - self.gap_end)]
                        == debug_char_after(self.buffer@[k]),
            decreases BUFFER_LEN - j,
        {
            let chr = self.buffer[j];
            let shown = if chr == EMPTY_SLOT {
                '_'
            } else {
                chr
            };
            push_char(&mut r, shown);
            j = j + 1;
        }
        proof {
            assert(r@ =~= self.debug_view());
        }
        r
    }
}

impl Default for GapBuffer {
    /// Same as [`GapBuffer::new`].
    fn default() -> (r: Self)
        ensures
            r.wf(),
            r.text() == Seq::<char>::empty(),
            r.cursor() == 0,
    {
        let mut buffer: Vec<char> = Vec::new();
        while buffer.len() < BUFFER_LEN
            invariant
                buffer@.len() <= BUFFER_LEN,
                forall|i: int| 0 <= i < buffer@.len() ==> buffer@[i] == EMPTY_SLOT,
            decreases BUFFER_LEN - buffer@.len(),
        {
            buffer.push(EMPTY_SLOT);
        }
        let r = GapBuffer { buffer, length: 0, gap_start: 0, gap_end: BUFFER_LEN };
        proof {
            assert(r.text() =~= Seq::<char>::empty());
        }
        r
    }
}

} // verus!
