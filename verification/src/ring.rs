//! The scrollback ring: a fixed-capacity circular buffer of committed lines,
//! one instance per tab. Pushing past the capacity evicts the oldest line
//! first; any of the last `LINE_NB` lines can be read back in constant time.

use vstd::prelude::*;

verus! {

use crate::color::{ColorCode, ScreenChar, blank_line, initial_color};
use crate::{BUFFER_WIDTH, LINE_NB};

/// The mathematical state of a ring: the raw slot contents together with the
/// three cursor fields.
pub struct RingModel {
    pub slots: Seq<Seq<ScreenChar>>,
    pub oldest: int,
    pub newest: int,
    pub size: int,
}

/// Well-formedness of a ring state: the slot array has the fixed capacity,
/// every slot is a full line, and the cursors are in range.
pub open spec fn ring_inv(r: RingModel) -> bool {
    &&& r.slots.len() == LINE_NB
    &&& forall|i: int| 0 <= i < LINE_NB ==> (#[trigger] r.slots[i]).len() == BUFFER_WIDTH
    &&& 0 <= r.oldest < LINE_NB
    &&& 0 <= r.newest < LINE_NB
    &&& 0 <= r.size <= LINE_NB
}

/// The slot index holding the `i`-th retained line (oldest first): the
/// window of `size` slots ending one before `newest`, wrapped around.
pub open spec fn ring_slot(newest: int, size: int, i: int) -> int {
    if newest - size + i >= 0 {
        newest - size + i
    } else {
        newest - size + i + LINE_NB
    }
}

/// The lines the ring retains, oldest first.
pub open spec fn ring_content(r: RingModel) -> Seq<Seq<ScreenChar>> {
    Seq::new(r.size as nat, |i: int| r.slots[ring_slot(r.newest, r.size, i)])
}

/// A fresh ring: empty, every slot blank.
pub open spec fn ring_new() -> RingModel {
    RingModel {
        slots: Seq::new(LINE_NB as nat, |i: int| blank_line(initial_color())),
        oldest: 0,
        newest: 0,
        size: 0,
    }
}

/// One push: when full, the oldest line is evicted first; the line is then
/// stored at `newest`, which advances.
pub open spec fn ring_push(r: RingModel, line: Seq<ScreenChar>) -> RingModel {
    let popped = if r.size == LINE_NB {
        RingModel {
            slots: r.slots,
            oldest: if r.oldest + 1 == LINE_NB {
                0
            } else {
                r.oldest + 1
            },
            newest: r.newest,
            size: r.size - 1,
        }
    } else {
        r
    };
    RingModel {
        slots: popped.slots.update(popped.newest, line),
        oldest: popped.oldest,
        newest: if popped.newest + 1 == LINE_NB {
            0
        } else {
            popped.newest + 1
        },
        size: popped.size + 1,
    }
}

/// Removing the oldest line: the window shortens from the front.
pub open spec fn ring_pop(r: RingModel) -> RingModel {
    if r.size == 0 {
        r
    } else {
        RingModel {
            slots: r.slots,
            oldest: if r.oldest + 1 == LINE_NB {
                0
            } else {
                r.oldest + 1
            },
            newest: r.newest,
            size: r.size - 1,
        }
    }
}

/// Resetting a ring to a single blank line carrying the given attribute.
pub open spec fn ring_clear(r: RingModel, color: ColorCode) -> RingModel {
    RingModel {
        slots: Seq::new(LINE_NB as nat, |i: int| blank_line(color)),
        oldest: r.oldest,
        newest: 1,
        size: 1,
    }
}

/// The slot read back as the most recent line: one before `newest`, or the
/// last slot when `newest` is zero.
pub open spec fn ring_last_slot(r: RingModel) -> int {
    if r.newest == 0 {
        LINE_NB - 1
    } else {
        r.newest - 1
    }
}

/// A fixed-capacity circular buffer of committed lines.
pub struct LineRing {
    buffer: Vec<Vec<ScreenChar>>,
    oldest: usize,
    newest: usize,
    size: usize,
}

impl View for LineRing {
    type V = RingModel;

    closed spec fn view(&self) -> RingModel {
        RingModel {
            slots: Seq::new(LINE_NB as nat, |i: int| self.buffer@[i]@),
            oldest: self.oldest as int,
            newest: self.newest as int,
            size: self.size as int,
        }
    }
}

impl LineRing {
    pub closed spec fn fields_ok(&self) -> bool {
        &&& self.buffer@.len() == LINE_NB
        &&& forall|i: int|
            0 <= i < LINE_NB ==> (#[trigger] self.buffer@[i])@.len() == BUFFER_WIDTH
        &&& self.oldest < LINE_NB
        &&& self.newest < LINE_NB
        &&& self.size <= LINE_NB
    }

    pub open spec fn wf(&self) -> bool {
        self.fields_ok() && ring_inv(self@)
    }

    pub fn new() -> (r: LineRing)
        ensures
            r.wf(),
            r@ == ring_new(),
    {
        let blank = ScreenChar {
            ascii: 32u8,
            color: ColorCode::new(crate::color::Color::White, crate::color::Color::Black),
        };
        let mut buffer: Vec<Vec<ScreenChar>> = Vec::new();
        let mut i: usize = 0;
        while i < LINE_NB
            invariant
                i <= LINE_NB,
                buffer@.len() == i,
                forall|k: int|
                    0 <= k < i ==> (#[trigger] buffer@[k])@ == blank_line(initial_color()),
                blank == crate::color::blank_char(initial_color()),
            decreases LINE_NB - i,
        {
            let mut line: Vec<ScreenChar> = Vec::new();
            let mut j: usize = 0;
            while j < BUFFER_WIDTH
                invariant
                    j <= BUFFER_WIDTH,
                    line@.len() == j,
                    forall|k: int| 0 <= k < j ==> line@[k] == blank,
                decreases BUFFER_WIDTH - j,
            {
                line.push(blank);
                j += 1;
            }
            proof {
                assert(line@ =~= blank_line(initial_color()));
            }
            buffer.push(line);
            i += 1;
        }
        let r = LineRing { buffer, oldest: 0, newest: 0, size: 0 };
        proof {
            assert(r@.slots =~= ring_new().slots);
            assert(r@ == ring_new());
        }
        r
    }

    /// Stores a committed line, evicting the oldest first when full.
    pub fn push_new_line(&mut self, line: Vec<ScreenChar>)
        requires
            old(self).wf(),
            line@.len() == BUFFER_WIDTH,
        ensures
            final(self).wf(),
            final(self)@ == ring_push(old(self)@, line@),
    {
        if self.size == self.buffer.len() {
            let _ = self.pop_oldest_line();
        }
        self.buffer[self.newest] = line;
        self.newest = (self.newest + 1) % LINE_NB;
        self.size = self.size + 1;
        proof {
            assert(self@.slots =~= ring_push(old(self)@, line@).slots);
            assert(self@ == ring_push(old(self)@, line@));
        }
    }

    /// Removes and returns the oldest retained line, if any.
    pub fn pop_oldest_line(&mut self) -> (r: Option<Vec<ScreenChar>>)
        requires
            old(self).wf(),
        ensures
            final(self).wf(),
            final(self)@ == ring_pop(old(self)@),
            old(self)@.size == 0 ==> r is None,
            old(self)@.size > 0 ==> (r matches Some(l) && l@ == old(self)@.slots[old(
                self,
            )@.oldest]),
    {
        if self.size == 0 {
            proof {
                assert(self@ == ring_pop(old(self)@));
            }
            None
        } else {
            let line = clone_line(&self.buffer[self.oldest]);
            self.oldest = (self.oldest + 1) % LINE_NB;
            self.size = self.size - 1;
            proof {
                assert(self@.slots =~= ring_pop(old(self)@).slots);
                assert(self@ == ring_pop(old(self)@));
            }
            Some(line)
        }
    }

    /// Resets the ring to a single blank line carrying `color`.
    pub fn clear(&mut self, color: ColorCode)
        requires
            old(self).wf(),
        ensures
            final(self).wf(),
            final(self)@ == ring_clear(old(self)@, color),
    {
        let blank = ScreenChar { ascii: 32u8, color };
        let mut i: usize = 0;
        while i < LINE_NB
            invariant
                i <= LINE_NB,
                self.buffer@.len() == LINE_NB,
                self.oldest == old(self).view().oldest,
                forall|k: int| 0 <= k < i ==> (#[trigger] self.buffer@[k])@ == blank_line(color),
                forall|k: int|
                    i <= k < LINE_NB ==> (#[trigger] self.buffer@[k])@ == old(self)@.slots[k],
                blank == crate::color::blank_char(color),
            decreases LINE_NB - i,
        {
            let mut line: Vec<ScreenChar> = Vec::new();
            let mut j: usize = 0;
            while j < BUFFER_WIDTH
                invariant
                    j <= BUFFER_WIDTH,
                    line@.len() == j,
                    forall|k: int| 0 <= k < j ==> line@[k] == blank,
                decreases BUFFER_WIDTH - j,
            {
                line.push(blank);
                j += 1;
            }
            proof {
                assert(line@ =~= blank_line(color));
            }
            self.buffer[i] = line;
            i += 1;
        }
        self.newest = 1;
        self.size = 1;
        proof {
            assert(self@.slots =~= ring_clear(old(self)@, color).slots);
            assert(self@ == ring_clear(old(self)@, color));
        }
    }

    /// A copy of the most recently pushed line; a well-defined blank line
    /// when nothing was ever pushed.
    pub fn last_line(&self) -> (r: Vec<ScreenChar>)
        requires
            self.wf(),
        ensures
            r@ == self@.slots[ring_last_slot(self@)],
            r@.len() == BUFFER_WIDTH,
            self@.size > 0 ==> r@ == ring_content(self@).last(),
    {
        let slot = if self.newest == 0 {
            LINE_NB - 1
        } else {
            self.newest - 1
        };
        let r = clone_line(&self.buffer[slot]);
        r
    }

    /// The cell at column `col` of raw slot `slot`.
    pub fn line_cell(&self, slot: usize, col: usize) -> (r: ScreenChar)
        requires
            self.wf(),
            slot < LINE_NB,
            col < BUFFER_WIDTH,
        ensures
            r == self@.slots[slot as int][col as int],
    {
        self.buffer[slot][col]
    }

    /// How many lines the ring retains.
    pub fn len(&self) -> (n: usize)
        requires
            self.wf(),
        ensures
            n == self@.size,
    {
        self.size
    }

    /// The raw index one past the most recently stored line.
    pub fn newest_index(&self) -> (n: usize)
        requires
            self.wf(),
        ensures
            n == self@.newest,
    {
        self.newest
    }
}

fn clone_line(line: &Vec<ScreenChar>) -> (r: Vec<ScreenChar>)
    ensures
        r@ == line@,
{
    let mut r: Vec<ScreenChar> = Vec::new();
    let mut i: usize = 0;
    while i < line.len()
        invariant
            i <= line@.len(),
            r@.len() == i,
            forall|k: int| 0 <= k < i ==> r@[k] == line@[k],
        decreases line@.len() - i,
    {
        r.push(line[i]);
        i += 1;
    }
    proof {
        assert(r@ =~= line@);
    }
    r
}

/// One push keeps every retained line but the evicted one: when the ring is
/// full the content drops its first line and appends the new one, otherwise
/// it just appends.
pub proof fn lemma_ring_push_content(r: RingModel, line: Seq<ScreenChar>)
    requires
        ring_inv(r),
        line.len() == BUFFER_WIDTH,
    ensures
        ring_inv(ring_push(r, line)),
        ring_push(r, line).size == if r.size == LINE_NB {
            LINE_NB as int
        } else {
            r.size + 1
        },
        r.size < LINE_NB ==> ring_content(ring_push(r, line)) == ring_content(r).push(line),
        r.size == LINE_NB ==> ring_content(ring_push(r, line)) == ring_content(r).skip(1).push(
            line,
        ),
{
    let p = ring_push(r, line);
    if r.size < LINE_NB {
        assert(ring_content(p) =~= ring_content(r).push(line));
    } else {
        assert(ring_content(p) =~= ring_content(r).skip(1).push(line));
    }
}

/// The ring state after pushing a whole sequence of lines in order.
pub open spec fn ring_push_all(r: RingModel, lines: Seq<Seq<ScreenChar>>) -> RingModel
    decreases lines.len(),
{
    if lines.len() <= 0 {
        r
    } else {
        ring_push_all(ring_push(r, lines[0]), lines.skip(1))
    }
}

/// Law: for every sequence of pushes, the ring retains exactly the last
/// `LINE_NB` of all lines ever held, in insertion order, and its size never
/// exceeds the capacity.
pub proof fn lemma_ring_retains_last_lines(r: RingModel, lines: Seq<Seq<ScreenChar>>)
    requires
        ring_inv(r),
        forall|i: int| 0 <= i < lines.len() ==> (#[trigger] lines[i]).len() == BUFFER_WIDTH,
    ensures
        ring_inv(ring_push_all(r, lines)),
        ring_push_all(r, lines).size <= LINE_NB,
        ring_push_all(r, lines).size == if r.size + lines.len() <= LINE_NB {
            r.size + lines.len()
        } else {
            LINE_NB as int
        },
        ring_content(ring_push_all(r, lines)) == (ring_content(r) + lines).skip(
            if r.size + lines.len() <= LINE_NB {
                0
            } else {
                r.size + lines.len() - LINE_NB
            },
        ),
    decreases lines.len(),
{
    if lines.len() == 0 {
        assert(ring_content(ring_push_all(r, lines)) =~= (ring_content(r) + lines).skip(0));
    } else {
        let l0 = lines[0];
        let rest = lines.skip(1);
        let r1 = ring_push(r, l0);
        lemma_ring_push_content(r, l0);
        lemma_ring_retains_last_lines(r1, rest);
        let drop_all = if r.size + lines.len() <= LINE_NB {
            0
        } else {
            r.size + lines.len() - LINE_NB
        };
        let drop_rest = if r1.size + rest.len() <= LINE_NB {
            0
        } else {
            r1.size + rest.len() - LINE_NB
        };
        if r.size < LINE_NB {
            assert((ring_content(r1) + rest).skip(drop_rest) =~= (ring_content(r) + lines).skip(
                drop_all,
            ));
        } else {
            assert((ring_content(r1) + rest).skip(drop_rest) =~= (ring_content(r) + lines).skip(
                drop_all,
            ));
        }
    }
}

} // verus!
