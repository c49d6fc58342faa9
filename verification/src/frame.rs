//! The hardware text frame: a fixed grid of character cells whose stores and
//! loads go through volatile accesses, so that a write to the mapped grid is
//! never elided or reordered away. The grid is opaque to the verifier; what a
//! cell holds is tracked through the `cell_value` name below.

use vstd::prelude::*;

verus! {

use crate::color::{ColorCode, ScreenChar, blank_char, initial_color};
use crate::{BUFFER_HEIGHT, BUFFER_WIDTH};

#[verifier::external_type_specification]
#[verifier::external_body]
#[verifier::reject_recursive_types(T)]
pub struct ExVolatile<T: Copy>(volatile::Volatile<T>);

/// The glyph byte and attribute byte a volatile cell holds.
pub uninterp spec fn cell_value(c: volatile::Volatile<ScreenChar>) -> (u8, u8);

/// Relies on volatile::Volatile::new: it wraps the given value, which later
/// volatile reads of the cell return.
#[verifier::external_body]
fn vol_new(v: ScreenChar) -> (r: volatile::Volatile<ScreenChar>)
    ensures
        cell_value(r) == (v.ascii, v.color.0),
{
    volatile::Volatile::new(v)
}

/// Relies on volatile::Volatile::read: it performs a genuine load of the
/// wrapped value and returns a copy of it.
#[verifier::external_body]
fn vol_read(row: &Vec<volatile::Volatile<ScreenChar>>, col: usize) -> (r: ScreenChar)
    requires
        col < row@.len(),
    ensures
        (r.ascii, r.color.0) == cell_value(row@[col as int]),
{
    row[col].read()
}

/// Relies on volatile::Volatile::write: it performs a genuine, non-elidable
/// store of the given value into the cell; no other cell is touched.
#[verifier::external_body]
fn vol_write(row: &mut Vec<volatile::Volatile<ScreenChar>>, col: usize, v: ScreenChar)
    requires
        col < old(row)@.len(),
    ensures
        final(row)@.len() == old(row)@.len(),
        forall|i: int| 0 <= i < old(row)@.len() && i != col ==> final(row)@[i] == old(row)@[i],
        cell_value(final(row)@[col as int]) == (v.ascii, v.color.0),
{
    row[col].write(v)
}

/// The mapped grid of `BUFFER_HEIGHT` rows of `BUFFER_WIDTH` volatile cells.
/// All access is bounds-checked by the callers' preconditions; the frame
/// itself enforces none, so an out-of-range row or column is a precondition
/// violation, never a wrapped or silently dropped store.
pub struct Frame {
    grid: Vec<Vec<volatile::Volatile<ScreenChar>>>,
}

impl View for Frame {
    type V = Seq<Seq<ScreenChar>>;

    closed spec fn view(&self) -> Seq<Seq<ScreenChar>> {
        Seq::new(
            BUFFER_HEIGHT as nat,
            |r: int|
                Seq::new(
                    BUFFER_WIDTH as nat,
                    |c: int|
                        ScreenChar {
                            ascii: cell_value(self.grid@[r]@[c]).0,
                            color: ColorCode(cell_value(self.grid@[r]@[c]).1),
                        },
                ),
        )
    }
}

impl Frame {
    pub closed spec fn wf(&self) -> bool {
        &&& self.grid@.len() == BUFFER_HEIGHT
        &&& forall|r: int|
            0 <= r < BUFFER_HEIGHT ==> (#[trigger] self.grid@[r])@.len() == BUFFER_WIDTH
    }

    /// A fresh frame: every cell blank, white on black.
    pub fn new() -> (r: Frame)
        ensures
            r.wf(),
            r@.len() == BUFFER_HEIGHT,
            forall|i: int| 0 <= i < BUFFER_HEIGHT ==> (#[trigger] r@[i]).len() == BUFFER_WIDTH,
            forall|i: int, j: int|
                0 <= i < BUFFER_HEIGHT && 0 <= j < BUFFER_WIDTH ==> r@[i][j] == blank_char(
                    initial_color(),
                ),
    {
        let blank = ScreenChar { ascii: 32u8, color: ColorCode::new(crate::color::Color::White, crate::color::Color::Black) };
        let mut grid: Vec<Vec<volatile::Volatile<ScreenChar>>> = Vec::new();
        let mut r: usize = 0;
        while r < BUFFER_HEIGHT
            invariant
                r <= BUFFER_HEIGHT,
                grid@.len() == r,
                forall|i: int| 0 <= i < r ==> (#[trigger] grid@[i])@.len() == BUFFER_WIDTH,
                forall|i: int, j: int|
                    0 <= i < r && 0 <= j < BUFFER_WIDTH ==> cell_value(#[trigger] grid@[i]@[j]) == (
                    blank.ascii,
                    blank.color.0,
                ),
                blank == blank_char(initial_color()),
            decreases BUFFER_HEIGHT - r,
        {
            let mut row: Vec<volatile::Volatile<ScreenChar>> = Vec::new();
            let mut c: usize = 0;
            while c < BUFFER_WIDTH
                invariant
                    c <= BUFFER_WIDTH,
                    row@.len() == c,
                    forall|j: int|
                        0 <= j < c ==> cell_value(#[trigger] row@[j]) == (
                        blank.ascii,
                        blank.color.0,
                    ),
                decreases BUFFER_WIDTH - c,
            {
                row.push(vol_new(blank));
                c += 1;
            }
            grid.push(row);
            r += 1;
        }
        let f = Frame { grid };
        proof {
            assert forall|i: int, j: int|
                0 <= i < BUFFER_HEIGHT && 0 <= j < BUFFER_WIDTH implies f@[i][j] == blank_char(
                initial_color(),
            ) by {
                assert(cell_value(f.grid@[i]@[j]) == (blank.ascii, blank.color.0));
            }
        }
        f
    }

    /// A genuine load of the cell at `row`, `col`.
    pub fn read(&self, row: usize, col: usize) -> (r: ScreenChar)
        requires
            self.wf(),
            row < BUFFER_HEIGHT,
            col < BUFFER_WIDTH,
        ensures
            r == self@[row as int][col as int],
    {
        let r = vol_read(&self.grid[row], col);
        proof {
            assert((r.ascii, r.color.0) == cell_value(self.grid@[row as int]@[col as int]));
            assert(r.color == ColorCode(r.color.0));
        }
        r
    }

    /// A genuine store of `v` into the cell at `row`, `col`; every other
    /// cell keeps its value.
    pub fn write(&mut self, row: usize, col: usize, v: ScreenChar)
        requires
            old(self).wf(),
            row < BUFFER_HEIGHT,
            col < BUFFER_WIDTH,
        ensures
            final(self).wf(),
            final(self)@ == old(self)@.update(
                row as int,
                old(self)@[row as int].update(col as int, v),
            ),
    {
        vol_write(&mut self.grid[row], col, v);
        proof {
            assert(final(self)@ =~~= old(self)@.update(
                row as int,
                old(self)@[row as int].update(col as int, v),
            )) by {
                assert(v.color == ColorCode(v.color.0));
            }
        }
    }
}

} // verus!
