//! The array discipline of a dense bucket store, on raw weight patterns.
//!
//! A store keeps one weight per bucket in a contiguous array; slot `i` of
//! the array belongs to bucket `offset + i` and holds the raw IEEE-754 bit
//! pattern of the bucket's weight.  The occupied window is
//! `min_index ..= max_index`, the store is empty iff `max_index <
//! min_index`, and every slot outside the window holds 0, the pattern of a
//! zero weight.  Growing the array, shifting and centering the window, and
//! the collapse decisions of the bounded stores are all here; only the
//! arithmetic on the weights themselves stays with the caller, which reads
//! and writes slots through the accessors.

use vstd::prelude::*;

verus! {

/// The backing array of a dense store: a window of weight slots, each the
/// raw bit pattern of its bucket's weight.
pub struct DenseCounts {
    counts: Vec<u64>,
    offset: i32,
    min_index: i32,
    max_index: i32,
}

impl DenseCounts {
    /// The pattern of bucket `b`: its slot inside the array, 0 outside.
    pub closed spec fn spec_bucket(&self, b: int) -> u64 {
        if self.offset <= b < self.offset + self.counts@.len() {
            self.counts@[b - self.offset]
        } else {
            0
        }
    }

    /// The bucket of the array's first slot.
    pub closed spec fn spec_offset(&self) -> int {
        self.offset as int
    }

    /// The lowest occupied bucket; `i32::MAX` when the store is empty.
    pub closed spec fn spec_min_index(&self) -> int {
        self.min_index as int
    }

    /// The highest occupied bucket; `i32::MIN` when the store is empty.
    pub closed spec fn spec_max_index(&self) -> int {
        self.max_index as int
    }

    /// The length of the backing array.
    pub closed spec fn spec_length(&self) -> int {
        self.counts@.len() as int
    }

    pub open spec fn spec_is_empty(&self) -> bool {
        self.spec_max_index() < self.spec_min_index()
    }

    /// The array discipline: the window sits inside the array (or carries
    /// the empty sentinel bounds), and every bucket outside the window
    /// weighs nothing.
    pub closed spec fn wf(&self) -> bool {
        &&& self.counts@.len() <= i32::MAX
        &&& if self.max_index < self.min_index {
            self.min_index == i32::MAX && self.max_index == i32::MIN
        } else {
            self.offset <= self.min_index
                && self.max_index - self.offset < self.counts@.len()
        }
        &&& forall|b: int| !(self.min_index <= b <= self.max_index)
            ==> #[trigger] self.spec_bucket(b) == 0
    }

    /// A store with no array and no occupied bucket.
    pub fn new() -> (r: DenseCounts)
        ensures
            r.wf(),
            r.spec_is_empty(),
            r.spec_length() == 0,
            r.spec_offset() == 0,
            forall|b: int| r.spec_bucket(b) == 0,
    {
        DenseCounts { counts: Vec::new(), offset: 0, min_index: i32::MAX, max_index: i32::MIN }
    }

    pub fn get_offset(&self) -> (r: i32)
        ensures
            r == self.spec_offset(),
    {
        self.offset
    }

    pub fn get_min_index(&self) -> (r: i32)
        ensures
            r == self.spec_min_index(),
    {
        self.min_index
    }

    pub fn get_max_index(&self) -> (r: i32)
        ensures
            r == self.spec_max_index(),
    {
        self.max_index
    }

    pub fn get_length(&self) -> (r: i32)
        requires
            self.wf(),
        ensures
            r == self.spec_length(),
    {
        self.counts.len() as i32
    }

    pub fn is_empty(&self) -> (r: bool)
        ensures
            r == self.spec_is_empty(),
    {
        self.max_index < self.min_index
    }

    /// The pattern of bucket `index`; 0 for a bucket outside the array.
    pub fn get_bucket(&self, index: i32) -> (r: u64)
        requires
            self.wf(),
        ensures
            r == self.spec_bucket(index as int),
    {
        let rel = index as i64 - self.offset as i64;
        if 0 <= rel && rel < self.counts.len() as i64 {
            self.counts[rel as usize]
        } else {
            0
        }
    }

    /// Stores `pattern` as the weight of the occupied bucket `index`.
    pub fn set_bucket(&mut self, index: i32, pattern: u64)
        requires
            old(self).wf(),
            old(self).spec_min_index() <= index <= old(self).spec_max_index(),
        ensures
            final(self).wf(),
            final(self).spec_bucket(index as int) == pattern,
            forall|b: int| b != index ==> final(self).spec_bucket(b)
                == old(self).spec_bucket(b),
            final(self).spec_offset() == old(self).spec_offset(),
            final(self).spec_min_index() == old(self).spec_min_index(),
            final(self).spec_max_index() == old(self).spec_max_index(),
            final(self).spec_length() == old(self).spec_length(),
    {
        let rel = (index - self.offset) as usize;
        self.counts.set(rel, pattern);
        proof {
            assert forall|b: int| !(self.min_index <= b <= self.max_index)
                implies #[trigger] self.spec_bucket(b) == 0 by {
                assert(self.spec_bucket(b) == old(self).spec_bucket(b));
            }
        }
    }

    /// Empties the store: every slot zeroed, the window reset, the array
    /// kept.
    #[verifier::loop_isolation(false)]
    pub fn clear(&mut self)
        requires
            old(self).wf(),
        ensures
            final(self).wf(),
            final(self).spec_is_empty(),
            final(self).spec_offset() == 0,
            final(self).spec_length() == old(self).spec_length(),
            forall|b: int| final(self).spec_bucket(b) == 0,
    {
        let len = self.counts.len();
        let mut i: usize = 0;
        while i < len
            invariant
                len == self.counts@.len(),
                i <= len,
                forall|k: int| 0 <= k < i ==> self.counts@[k] == 0,
                self.offset == old(self).spec_offset(),
            decreases len - i,
        {
            self.counts.set(i, 0);
            i = i + 1;
        }
        self.max_index = i32::MIN;
        self.min_index = i32::MAX;
        self.offset = 0;
    }

    #[verifier::loop_isolation(false)]
    fn array_copy(&mut self, src_pos: i32, dest_pos: i32, length: i32)
        requires
            0 <= src_pos,
            0 <= dest_pos,
            0 <= length,
            old(self).counts@.len() <= i32::MAX,
            src_pos + length <= old(self).counts@.len(),
            dest_pos + length <= old(self).counts@.len(),
        ensures
            final(self).counts@.len() == old(self).counts@.len(),
            final(self).offset == old(self).offset,
            final(self).min_index == old(self).min_index,
            final(self).max_index == old(self).max_index,
            forall|k: int| dest_pos <= k < dest_pos + length
                ==> #[trigger] final(self).counts@[k]
                    == old(self).counts@[k - dest_pos + src_pos],
            forall|k: int| 0 <= k < old(self).counts@.len()
                && !(dest_pos <= k < dest_pos + length)
                ==> #[trigger] final(self).counts@[k] == old(self).counts@[k],
    {
        if src_pos < dest_pos {
            let mut off: i32 = length - 1;
            while off >= 0
                invariant
                    -1 <= off < length,
                    src_pos < dest_pos,
                    self.counts@.len() == old(self).counts@.len(),
                    self.offset == old(self).offset,
                    self.min_index == old(self).min_index,
                    self.max_index == old(self).max_index,
                    forall|k: int| dest_pos + off < k < dest_pos + length
                        ==> #[trigger] self.counts@[k]
                            == old(self).counts@[k - dest_pos + src_pos],
                    forall|k: int| 0 <= k < old(self).counts@.len()
                        && !(dest_pos + off + 1 <= k < dest_pos + length)
                        ==> #[trigger] self.counts@[k] == old(self).counts@[k],
                decreases off + 1,
            {
                let v = self.counts[(src_pos + off) as usize];
                self.counts.set((dest_pos + off) as usize, v);
                off = off - 1;
            }
        } else if src_pos > dest_pos {
            let mut off: i32 = 0;
            while off < length
                invariant
                    0 <= off <= length,
                    src_pos > dest_pos,
                    self.counts@.len() == old(self).counts@.len(),
                    self.offset == old(self).offset,
                    self.min_index == old(self).min_index,
                    self.max_index == old(self).max_index,
                    forall|k: int| dest_pos <= k < dest_pos + off
                        ==> #[trigger] self.counts@[k]
                            == old(self).counts@[k - dest_pos + src_pos],
                    forall|k: int| 0 <= k < old(self).counts@.len()
                        && !(dest_pos <= k < dest_pos + off)
                        ==> #[trigger] self.counts@[k] == old(self).counts@[k],
                decreases length - off,
            {
                let v = self.counts[(src_pos + off) as usize];
                self.counts.set((dest_pos + off) as usize, v);
                off = off + 1;
            }
        }
    }

    /// Zeroes the weights of the buckets `from_index ..= to_index`; an
    /// inverted range touches nothing.
    #[verifier::loop_isolation(false)]
    pub fn reset_counts(&mut self, from_index: i32, to_index: i32)
        requires
            old(self).wf(),
            from_index <= to_index ==> old(self).spec_offset() <= from_index
                && to_index - old(self).spec_offset() < old(self).spec_length(),
        ensures
            final(self).wf(),
            final(self).spec_offset() == old(self).spec_offset(),
            final(self).spec_min_index() == old(self).spec_min_index(),
            final(self).spec_max_index() == old(self).spec_max_index(),
            final(self).spec_length() == old(self).spec_length(),
            forall|b: int| from_index <= b <= to_index ==> final(self).spec_bucket(b) == 0,
            forall|b: int| !(from_index <= b <= to_index)
                ==> final(self).spec_bucket(b) == old(self).spec_bucket(b),
    {
        if from_index > to_index {
            return;
        }
        let rel_from = (from_index - self.offset) as usize;
        let rel_to = (to_index - self.offset) as usize;
        let mut i: usize = rel_from;
        while i <= rel_to
            invariant
                rel_from == from_index - old(self).spec_offset(),
                rel_to == to_index - old(self).spec_offset(),
                rel_to < self.counts@.len(),
                rel_from <= i <= rel_to + 1,
                self.counts@.len() == old(self).spec_length(),
                self.offset == old(self).offset,
                self.min_index == old(self).min_index,
                self.max_index == old(self).max_index,
                forall|k: int| rel_from <= k < i ==> #[trigger] self.counts@[k] == 0,
                forall|k: int| 0 <= k < old(self).counts@.len()
                    && !(rel_from <= k < i)
                    ==> #[trigger] self.counts@[k] == old(self).counts@[k],
            decreases rel_to + 1 - i,
        {
            self.counts.set(i, 0);
            i = i + 1;
        }
        proof {
            assert forall|b: int| from_index <= b <= to_index
                implies #[trigger] self.spec_bucket(b) == 0 by {
                assert(self.counts@[b - self.offset] == 0);
            }
            assert forall|b: int| !(from_index <= b <= to_index)
                implies #[trigger] self.spec_bucket(b) == old(self).spec_bucket(b) by {
                if self.offset <= b < self.offset + self.counts@.len() {
                    assert(self.counts@[b - self.offset]
                        == old(self).counts@[b - self.offset]);
                }
            }
            assert forall|b: int| !(self.min_index <= b <= self.max_index)
                implies #[trigger] self.spec_bucket(b) == 0 by {
                if !(from_index <= b <= to_index) {
                    assert(self.spec_bucket(b) == old(self).spec_bucket(b));
                }
            }
        }
    }

    /// Grows the backing array to `new_length` slots, the new slots empty;
    /// a smaller length leaves it as it is.
    #[verifier::loop_isolation(false)]
    pub fn ensure_length(&mut self, new_length: i32)
        requires
            old(self).wf(),
            0 <= new_length,
        ensures
            final(self).wf(),
            final(self).spec_length() == if new_length > old(self).spec_length() {
                new_length as int
            } else {
                old(self).spec_length()
            },
            final(self).spec_offset() == old(self).spec_offset(),
            final(self).spec_min_index() == old(self).spec_min_index(),
            final(self).spec_max_index() == old(self).spec_max_index(),
            forall|b: int| final(self).spec_bucket(b) == old(self).spec_bucket(b),
    {
        let target = new_length as usize;
        while self.counts.len() < target
            invariant
                old(self).spec_length() <= self.counts@.len() <= vstd::math::max(
                    old(self).spec_length(), target as int),
                self.counts@.len() <= i32::MAX,
                self.offset == old(self).offset,
                self.min_index == old(self).min_index,
                self.max_index == old(self).max_index,
                forall|k: int| 0 <= k < old(self).counts@.len()
                    ==> #[trigger] self.counts@[k] == old(self).counts@[k],
                forall|k: int| old(self).counts@.len() <= k < self.counts@.len()
                    ==> #[trigger] self.counts@[k] == 0,
            decreases target - self.counts@.len(),
        {
            self.counts.push(0);
        }
        proof {
            assert forall|b: int| #[trigger] self.spec_bucket(b) == old(self).spec_bucket(b) by {
                if self.offset <= b < self.offset + self.counts@.len() {
                    assert(self.counts@[b - self.offset]
                        == if b - self.offset < old(self).counts@.len() {
                            old(self).counts@[b - self.offset]
                        } else {
                            0
                        });
                }
            }
            assert forall|b: int| !(self.min_index <= b <= self.max_index)
                implies #[trigger] self.spec_bucket(b) == 0 by {
                assert(self.spec_bucket(b) == old(self).spec_bucket(b));
            }
        }
    }

    /// Moves an empty store's array to start at bucket `new_offset`.
    pub fn rebase(&mut self, new_offset: i32)
        requires
            old(self).wf(),
            old(self).spec_is_empty(),
        ensures
            final(self).wf(),
            final(self).spec_is_empty(),
            final(self).spec_offset() == new_offset,
            final(self).spec_length() == old(self).spec_length(),
            forall|b: int| final(self).spec_bucket(b) == 0,
    {
        proof {
            assert forall|k: int| 0 <= k < self.counts@.len()
                implies #[trigger] self.counts@[k] == 0 by {
                assert(old(self).spec_bucket(old(self).spec_offset() + k) == 0);
            }
        }
        self.offset = new_offset;
    }

    /// Sets the occupied window, which must lie inside the array (or carry
    /// the empty sentinel bounds) and already own all the weight.
    pub fn set_window_bounds(&mut self, new_min_index: i32, new_max_index: i32)
        requires
            old(self).wf(),
            if new_max_index < new_min_index {
                new_min_index == i32::MAX && new_max_index == i32::MIN
            } else {
                old(self).spec_offset() <= new_min_index
                    && new_max_index - old(self).spec_offset() < old(self).spec_length()
            },
            forall|b: int| !(new_min_index <= b <= new_max_index)
                ==> old(self).spec_bucket(b) == 0,
        ensures
            final(self).wf(),
            final(self).spec_min_index() == new_min_index,
            final(self).spec_max_index() == new_max_index,
            final(self).spec_offset() == old(self).spec_offset(),
            final(self).spec_length() == old(self).spec_length(),
            forall|b: int| final(self).spec_bucket(b) == old(self).spec_bucket(b),
    {
        self.min_index = new_min_index;
        self.max_index = new_max_index;
        proof {
            assert forall|b: int| !(self.min_index <= b <= self.max_index)
                implies #[trigger] self.spec_bucket(b) == 0 by {
                assert(self.spec_bucket(b) == old(self).spec_bucket(b));
            }
        }
    }

    /// Moves the live window by `shift` slots within the array and zeroes
    /// what it vacates; the array start then names the bucket
    /// `offset - shift`.  No bucket's weight changes.
    #[verifier::loop_isolation(false)]
    pub fn shift_counts(&mut self, shift: i32)
        requires
            old(self).wf(),
            !old(self).spec_is_empty(),
            0 <= old(self).spec_min_index() - old(self).spec_offset() + shift,
            old(self).spec_max_index() - old(self).spec_offset() + shift
                < old(self).spec_length(),
            i32::MIN <= old(self).spec_offset() - shift,
        ensures
            final(self).wf(),
            final(self).spec_offset() == old(self).spec_offset() - shift,
            final(self).spec_min_index() == old(self).spec_min_index(),
            final(self).spec_max_index() == old(self).spec_max_index(),
            final(self).spec_length() == old(self).spec_length(),
            forall|b: int| final(self).spec_bucket(b) == old(self).spec_bucket(b),
    {
        let min_array_index = self.min_index - self.offset;
        let max_array_index = self.max_index - self.offset;

        self.array_copy(
            min_array_index,
            min_array_index + shift,
            max_array_index - min_array_index + 1,
        );
        let ghost mid = *self;

        if shift > 0 {
            let from = min_array_index as usize;
            let to = (min_array_index + shift) as usize;
            let mut i: usize = from;
            while i < to
                invariant
                    from <= i <= to,
                    to <= self.counts@.len(),
                    self.counts@.len() == mid.spec_length(),
                    self.offset == mid.offset,
                    self.min_index == mid.min_index,
                    self.max_index == mid.max_index,
                    forall|k: int| from <= k < i ==> #[trigger] self.counts@[k] == 0,
                    forall|k: int| 0 <= k < mid.counts@.len() && !(from <= k < i)
                        ==> #[trigger] self.counts@[k] == mid.counts@[k],
                decreases to - i,
            {
                self.counts.set(i, 0);
                i = i + 1;
            }
        } else if shift < 0 {
            let from = (max_array_index + 1 + shift) as usize;
            let to = (max_array_index + 1) as usize;
            let mut i: usize = from;
            while i < to
                invariant
                    from <= i <= to,
                    to <= self.counts@.len(),
                    self.counts@.len() == mid.spec_length(),
                    self.offset == mid.offset,
                    self.min_index == mid.min_index,
                    self.max_index == mid.max_index,
                    forall|k: int| from <= k < i ==> #[trigger] self.counts@[k] == 0,
                    forall|k: int| 0 <= k < mid.counts@.len() && !(from <= k < i)
                        ==> #[trigger] self.counts@[k] == mid.counts@[k],
                decreases to - i,
            {
                self.counts.set(i, 0);
                i = i + 1;
            }
        }

        self.offset = self.offset - shift;

        proof {
            let pre = *old(self);
            let o = pre.spec_offset();
            let len = pre.spec_length();
            let lo = pre.spec_min_index() - o;
            let hi = pre.spec_max_index() - o;
            assert forall|b: int| #[trigger] self.spec_bucket(b) == pre.spec_bucket(b) by {
                let s = b - o + shift;
                if pre.spec_min_index() <= b <= pre.spec_max_index() {
                    assert(lo + shift <= s <= hi + shift);
                    assert(self.counts@[s] == mid.counts@[s]);
                    assert(mid.counts@[s] == pre.counts@[s - shift]);
                    assert(self.spec_bucket(b) == pre.spec_bucket(b));
                } else {
                    assert(pre.spec_bucket(b) == 0);
                    if 0 <= s < len {
                        if lo + shift <= s <= hi + shift {
                            assert(pre.spec_min_index() <= b <= pre.spec_max_index());
                        } else if shift > 0 && lo <= s < lo + shift {
                            assert(self.counts@[s] == 0);
                        } else if shift < 0 && hi + 1 + shift <= s <= hi {
                            assert(self.counts@[s] == 0);
                        } else {
                            assert(mid.counts@[s] == pre.counts@[s]);
                            assert(self.counts@[s] == pre.counts@[s]);
                            assert(pre.counts@[s] == pre.spec_bucket(o + s));
                            assert(!(pre.spec_min_index() <= o + s <= pre.spec_max_index()));
                            assert(pre.spec_bucket(o + s) == 0);
                        }
                        assert(self.spec_bucket(b) == self.counts@[s]);
                    }
                }
            }
            assert forall|b: int| !(self.min_index <= b <= self.max_index)
                implies #[trigger] self.spec_bucket(b) == 0 by {
                assert(self.spec_bucket(b) == pre.spec_bucket(b));
            }
        }
    }

    /// Re-centres the window on the array, per the middle formula of the
    /// array discipline: the new first slot names bucket
    /// `middle - length / 2`.  No bucket's weight changes.
    pub fn center_counts(&mut self, new_min_index: i32, new_max_index: i32)
        requires
            old(self).wf(),
            !old(self).spec_is_empty(),
            new_min_index <= old(self).spec_min_index(),
            old(self).spec_max_index() <= new_max_index,
            new_max_index - new_min_index + 1 <= old(self).spec_length(),
            i32::MIN <= new_min_index + (new_max_index - new_min_index + 1) / 2
                - old(self).spec_length() / 2,
        ensures
            final(self).wf(),
            final(self).spec_min_index() == new_min_index,
            final(self).spec_max_index() == new_max_index,
            final(self).spec_length() == old(self).spec_length(),
            final(self).spec_offset() == new_min_index + (new_max_index - new_min_index + 1) / 2
                - old(self).spec_length() / 2,
            forall|b: int| final(self).spec_bucket(b) == old(self).spec_bucket(b),
    {
        let len: i32 = self.counts.len() as i32;
        let middle: i64 = new_min_index as i64
            + (new_max_index as i64 - new_min_index as i64 + 1) / 2;
        let shift64: i64 = self.offset as i64 + (len / 2) as i64 - middle;
        proof {
            let span1 = new_max_index - new_min_index + 1;
            assert(span1 / 2 <= len / 2);
            assert(span1 - 1 - span1 / 2 + len / 2 <= len - 1);
            assert(new_min_index <= self.min_index);
            assert(self.min_index - self.offset + shift64 >= len / 2 - span1 / 2);
            assert(self.max_index - self.offset + shift64
                <= span1 - 1 - span1 / 2 + len / 2);
        }
        let shift: i32 = shift64 as i32;
        self.shift_counts(shift);
        self.min_index = new_min_index;
        self.max_index = new_max_index;
        proof {
            assert forall|b: int| !(self.min_index <= b <= self.max_index)
                implies #[trigger] self.spec_bucket(b) == 0 by {
                assert(self.spec_bucket(b) == old(self).spec_bucket(b));
                assert(!(old(self).spec_min_index() <= b <= old(self).spec_max_index()));
            }
        }
    }

    /// The non-empty bins of the window from bucket `b` up, lowest first:
    /// each bucket whose pattern is not that of a zero weight, with its
    /// pattern.
    pub closed spec fn spec_bins_from(&self, b: int) -> Seq<(i32, u64)>
        decreases self.spec_max_index() - b + 1 when b <= self.spec_max_index() + 1
    {
        if b > self.spec_max_index() {
            Seq::empty()
        } else {
            let rest = self.spec_bins_from(b + 1);
            if spec_pattern_is_nonzero(self.spec_bucket(b)) {
                seq![(b as i32, self.spec_bucket(b))] + rest
            } else {
                rest
            }
        }
    }

    /// The non-empty bins of the whole window, lowest bucket first.
    pub open spec fn spec_nonzero_bins(&self) -> Seq<(i32, u64)> {
        if self.spec_is_empty() {
            Seq::empty()
        } else {
            self.spec_bins_from(self.spec_min_index())
        }
    }

    /// The non-empty bins of the window, lowest bucket first.
    #[verifier::loop_isolation(false)]
    pub fn nonzero_bins_ascending(&self) -> (r: Vec<(i32, u64)>)
        requires
            self.wf(),
        ensures
            r@ == self.spec_nonzero_bins(),
    {
        let mut bins: Vec<(i32, u64)> = Vec::new();
        if self.max_index < self.min_index {
            return bins;
        }
        let mut b: i64 = self.min_index as i64;
        while b <= self.max_index as i64
            invariant
                self.spec_min_index() <= b <= self.spec_max_index() + 1,
                self.spec_nonzero_bins() == bins@ + self.spec_bins_from(b as int),
            decreases self.spec_max_index() + 1 - b,
        {
            let pattern = self.get_bucket(b as i32);
            if pattern != 0 && pattern != 0x8000000000000000 {
                let ghost pre = bins@;
                bins.push((b as i32, pattern));
                proof {
                    assert(pre + (seq![(b as i32, pattern)]
                        + self.spec_bins_from(b + 1))
                        =~= bins@ + self.spec_bins_from(b + 1));
                }
            }
            b = b + 1;
        }
        proof {
            assert(bins@ + self.spec_bins_from(b as int) =~= bins@);
        }
        bins
    }

    /// The non-empty bins of the window, highest bucket first.
    #[verifier::loop_isolation(false)]
    pub fn nonzero_bins_descending(&self) -> (r: Vec<(i32, u64)>)
        requires
            self.wf(),
        ensures
            r@ == self.spec_nonzero_bins().reverse(),
    {
        let asc = self.nonzero_bins_ascending();
        let mut bins: Vec<(i32, u64)> = Vec::new();
        let mut i: usize = asc.len();
        while i > 0
            invariant
                i <= asc@.len(),
                bins@.len() == asc@.len() - i,
                forall|k: int| 0 <= k < bins@.len()
                    ==> #[trigger] bins@[k] == asc@[asc@.len() - 1 - k],
            decreases i,
        {
            i = i - 1;
            bins.push(asc[i]);
        }
        proof {
            assert(bins@ =~= self.spec_nonzero_bins().reverse());
        }
        bins
    }
}

/// Whether a pattern weighs something: every pattern but those of the two
/// zero weights.
pub open spec fn spec_pattern_is_nonzero(p: u64) -> bool {
    p != 0 && p != 0x8000000000000000
}

/// What a bounded store does when a requested window would not fit its
/// array.
#[derive(Clone, Copy, PartialEq, Eq, Structural, Debug)]
pub enum AdjustAction {
    /// The window fits: re-centre it on the array.
    Center,
    /// Every occupied bucket folds into the single retained boundary
    /// bucket.
    FoldAllIntoOne,
    /// The buckets beyond the fold boundary fold into the retained boundary
    /// bucket, then the window shifts.
    Collapse { fold_boundary: i32, shift: i32 },
    /// The window only shifts; nothing occupied lies beyond the boundary.
    ShiftOnly { shift: i32 },
}

/// The collapsing-lowest decision for a requested window
/// `[new_min_index, new_max_index]` over an array of `length` slots whose
/// first slot names bucket `offset` and whose occupied window ends at
/// `max_index`: what to do, the lowest retained bucket, and whether the
/// store is collapsed afterwards.
pub fn plan_adjust_lowest(
    length: i32,
    offset: i32,
    max_index: i32,
    new_min_index: i32,
    new_max_index: i32,
) -> (r: (AdjustAction, i32, bool))
    requires
        new_min_index <= new_max_index,
        0 <= length,
        new_max_index - new_min_index + 1 > length ==> {
            &&& i32::MIN < new_max_index - length + 1 <= i32::MAX
            &&& i32::MIN <= offset - (new_max_index - length + 1) <= i32::MAX
        },
    ensures
        r == ({
            let span = new_max_index - new_min_index + 1;
            if span <= length {
                (AdjustAction::Center, new_min_index, false)
            } else {
                let forced_min = new_max_index - length + 1;
                if forced_min >= max_index {
                    (AdjustAction::FoldAllIntoOne, forced_min as i32, true)
                } else {
                    let shift = offset - forced_min;
                    if shift < 0 {
                        (AdjustAction::Collapse {
                            fold_boundary: (forced_min - 1) as i32,
                            shift: shift as i32,
                        }, forced_min as i32, true)
                    } else {
                        (AdjustAction::ShiftOnly { shift: shift as i32 }, forced_min as i32, true)
                    }
                }
            }
        }),
{
    let span: i64 = new_max_index as i64 - new_min_index as i64 + 1;
    if span <= length as i64 {
        return (AdjustAction::Center, new_min_index, false);
    }
    proof {
        assert(i32::MIN < new_max_index - length + 1 <= i32::MAX);
    }
    let forced_min: i32 = ((new_max_index as i64) - (length as i64) + 1) as i32;
    if forced_min >= max_index {
        return (AdjustAction::FoldAllIntoOne, forced_min, true);
    }
    let shift: i32 = ((offset as i64) - (forced_min as i64)) as i32;
    if shift < 0 {
        (AdjustAction::Collapse { fold_boundary: forced_min - 1, shift }, forced_min, true)
    } else {
        (AdjustAction::ShiftOnly { shift }, forced_min, true)
    }
}

/// The collapsing-highest decision, the mirror image: the highest retained
/// bucket comes back, and the buckets above the fold boundary fold into it.
pub fn plan_adjust_highest(
    length: i32,
    offset: i32,
    min_index: i32,
    new_min_index: i32,
    new_max_index: i32,
) -> (r: (AdjustAction, i32, bool))
    requires
        new_min_index <= new_max_index,
        0 <= length,
        new_max_index - new_min_index + 1 > length ==> {
            &&& i32::MIN < new_min_index + length <= i32::MAX
            &&& i32::MIN <= offset - new_min_index <= i32::MAX
        },
    ensures
        r == ({
            let span = new_max_index - new_min_index + 1;
            if span <= length {
                (AdjustAction::Center, new_max_index, false)
            } else {
                let forced_max = new_min_index + length - 1;
                if forced_max <= min_index {
                    (AdjustAction::FoldAllIntoOne, forced_max as i32, true)
                } else {
                    let shift = offset - new_min_index;
                    if shift > 0 {
                        (AdjustAction::Collapse {
                            fold_boundary: (forced_max + 1) as i32,
                            shift: shift as i32,
                        }, forced_max as i32, true)
                    } else {
                        (AdjustAction::ShiftOnly { shift: shift as i32 }, forced_max as i32, true)
                    }
                }
            }
        }),
{
    let span: i64 = new_max_index as i64 - new_min_index as i64 + 1;
    if span <= length as i64 {
        return (AdjustAction::Center, new_max_index, false);
    }
    proof {
        assert(i32::MIN <= new_min_index + length - 1 < i32::MAX);
    }
    let forced_max: i32 = ((new_min_index as i64) + (length as i64) - 1) as i32;
    if forced_max <= min_index {
        return (AdjustAction::FoldAllIntoOne, forced_max, true);
    }
    let shift: i32 = ((offset as i64) - (new_min_index as i64)) as i32;
    if shift > 0 {
        (AdjustAction::Collapse { fold_boundary: forced_max + 1, shift }, forced_max, true)
    } else {
        (AdjustAction::ShiftOnly { shift }, forced_max, true)
    }
}

} // verus!
