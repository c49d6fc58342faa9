//! The terminal writer: owns the text frame, per-tab cursor and scrollback
//! state, the active color attribute and the command-mode flag. Every public
//! operation is specified against the mathematical `TermModel` below.

use vstd::prelude::*;

verus! {

use vstd::string::StringSliceAdditionalSpecFns;
use crate::color::{Color, ColorCode, ScreenChar, attr, blank_char, blank_line, initial_color};
use crate::frame::Frame;
use crate::ring::{LineRing, RingModel, ring_clear, ring_inv, ring_last_slot, ring_new, ring_push};
use crate::{BUFFER_HEIGHT, BUFFER_WIDTH, LINE_NB};

/// The mathematical state of the terminal writer.
pub struct TermModel {
    /// The 25 x 80 grid of cells currently on screen.
    pub frame: Seq<Seq<ScreenChar>>,
    /// Column position of each tab's cursor, at most the frame width.
    pub cols: Seq<int>,
    /// The attribute subsequent writes carry.
    pub color: ColorCode,
    /// Each tab's scrollback ring.
    pub rings: Seq<RingModel>,
    /// Each tab's scroll offset; zero is the live bottom view.
    pub scroll: Seq<int>,
    /// Whether the next committed line is a command line.
    pub cmd: bool,
    /// The active tab index.
    pub tab: int,
    /// The cell saved from under the cursor glyph.
    pub behind: ScreenChar,
}

/// Well-formedness of a terminal state.
pub open spec fn term_inv(m: TermModel) -> bool {
    &&& m.frame.len() == BUFFER_HEIGHT
    &&& forall|r: int| 0 <= r < BUFFER_HEIGHT ==> (#[trigger] m.frame[r]).len() == BUFFER_WIDTH
    &&& m.cols.len() == 3
    &&& forall|t: int| 0 <= t < 3 ==> 0 <= #[trigger] m.cols[t] <= BUFFER_WIDTH
    &&& m.rings.len() == 3
    &&& forall|t: int| 0 <= t < 3 ==> ring_inv(#[trigger] m.rings[t])
    &&& m.scroll.len() == 3
    &&& forall|t: int| 0 <= t < 3 ==> 0 <= #[trigger] m.scroll[t] <= LINE_NB - (BUFFER_HEIGHT - 2)
    &&& 0 <= m.tab < 3
}

/// The frame with one cell replaced.
pub open spec fn frame_set(f: Seq<Seq<ScreenChar>>, row: int, col: int, v: ScreenChar) -> Seq<
    Seq<ScreenChar>,
> {
    f.update(row, f[row].update(col, v))
}

/// The accent color of a tab's interface row and cursor.
pub open spec fn tab_color(tab: int) -> Color {
    if tab == 1 {
        Color::Red
    } else if tab == 2 {
        Color::Green
    } else {
        Color::LightBlue
    }
}

/// The color-inverted attribute the cursor glyph carries on each tab.
pub open spec fn cursor_color(tab: int) -> ColorCode {
    if tab == 0 {
        ColorCode(attr(Color::Black, Color::LightBlue))
    } else if tab == 1 {
        ColorCode(attr(Color::Black, Color::Red))
    } else if tab == 2 {
        ColorCode(attr(Color::Black, Color::Green))
    } else {
        ColorCode(attr(Color::Black, Color::Black))
    }
}

/// Saving the cell at `pos` of the bottom row and overlaying the cursor
/// glyph (same glyph byte, inverted color) there.
pub open spec fn spec_update_cursor(m: TermModel, pos: int) -> TermModel {
    let cell = m.frame[24][pos];
    let glyph = ScreenChar { ascii: cell.ascii, color: cursor_color(m.tab) };
    TermModel { frame: frame_set(m.frame, 24, pos, glyph), behind: cell, ..m }
}

/// The cell of the status row at column `c` for the given active tab.
pub open spec fn interface_cell(tab: int, c: int) -> ScreenChar {
    let norm = ColorCode(attr(tab_color(tab), Color::Black));
    let inv = ColorCode(attr(Color::Black, tab_color(tab)));
    if c == 68 {
        ScreenChar { ascii: 47u8, color: norm }
    } else if c == 69 {
        ScreenChar { ascii: 32u8, color: norm }
    } else if c == 70 {
        ScreenChar { ascii: 49u8, color: if tab == 0 { inv } else { norm } }
    } else if c == 71 {
        ScreenChar { ascii: 32u8, color: norm }
    } else if c == 72 {
        ScreenChar { ascii: 50u8, color: if tab == 1 { inv } else { norm } }
    } else if c == 73 {
        ScreenChar { ascii: 32u8, color: norm }
    } else if c == 74 {
        ScreenChar { ascii: 51u8, color: if tab == 2 { inv } else { norm } }
    } else if c == 75 {
        ScreenChar { ascii: 32u8, color: norm }
    } else if c == 76 {
        ScreenChar { ascii: 47u8, color: norm }
    } else {
        ScreenChar { ascii: 196u8, color: norm }
    }
}

/// The status row rendered for the given active tab.
pub open spec fn interface_row(tab: int) -> Seq<ScreenChar> {
    Seq::new(BUFFER_WIDTH as nat, |c: int| interface_cell(tab, c))
}

/// Rendering the status row, and, in command mode, the prompt marker and
/// the inverted cell after it at the start of the bottom row.
pub open spec fn spec_print_interface(m: TermModel) -> TermModel {
    let norm = ColorCode(attr(tab_color(m.tab), Color::Black));
    let inv = ColorCode(attr(Color::Black, tab_color(m.tab)));
    let f1 = m.frame.update(23, interface_row(m.tab));
    let f2 = if m.cmd {
        f1.update(
            24,
            f1[24].update(0, ScreenChar { ascii: 36u8, color: norm }).update(
                1,
                ScreenChar { ascii: 62u8, color: norm },
            ).update(2, ScreenChar { ascii: 32u8, color: inv }),
        )
    } else {
        f1
    };
    TermModel { frame: f2, ..m }
}

/// The raw ring slot shown on visible row `row` under scroll offset
/// `scroll`: the window of 23 slots ending `scroll` before `newest`.
pub open spec fn render_slot(newest: int, scroll: int, row: int) -> int {
    let x = newest - scroll - 23 + row;
    if x >= 0 {
        x
    } else {
        x + LINE_NB
    }
}

/// Re-rendering the frame: the status row, the command prompt when in
/// command mode, and the 23 visible rows copied from the active tab's ring.
pub open spec fn spec_render(m: TermModel) -> TermModel {
    let m1 = spec_print_interface(m);
    let ring = m.rings[m.tab];
    let f = Seq::new(
        BUFFER_HEIGHT as nat,
        |r: int|
            if r < 23 {
                ring.slots[render_slot(ring.newest, m.scroll[m.tab], r)]
            } else {
                m1.frame[r]
            },
    );
    TermModel { frame: f, ..m1 }
}

/// The committed form of the bottom row: every cell not carrying the
/// current attribute is normalized to it, except a prompt marker in the
/// first two columns.
pub open spec fn commit_line(row: Seq<ScreenChar>, color: ColorCode) -> Seq<ScreenChar> {
    Seq::new(
        BUFFER_WIDTH as nat,
        |c: int|
            if row[c].color != color && (c > 1 || (row[c].ascii != 36 && row[c].ascii != 62)) {
                ScreenChar { ascii: row[c].ascii, color }
            } else {
                row[c]
            },
    )
}

/// Committing a line: the bottom row is normalized and pushed into the
/// active tab's ring, the row is blanked, the column returns to the start
/// of the editable region, the scroll resets, the frame is re-rendered,
/// and command mode ends.
pub open spec fn spec_new_line(m: TermModel) -> TermModel {
    let committed = commit_line(m.frame[24], m.color);
    let m1 = TermModel {
        rings: m.rings.update(m.tab, ring_push(m.rings[m.tab], committed)),
        ..m
    };
    let m2 = TermModel { frame: m1.frame.update(24, blank_line(m.color)), ..m1 };
    let m3 = TermModel {
        cols: m2.cols.update(m2.tab, if m.cmd { 2int } else { 0int }),
        scroll: m2.scroll.update(m2.tab, 0int),
        ..m2
    };
    let m4 = spec_render(m3);
    TermModel { cmd: false, ..m4 }
}

/// Backspace: when the column is inside the editable region, the cells
/// right of the cursor shift one left (only on a command line), the last
/// column is blanked, and the cursor moves one left.
pub open spec fn spec_backspace(m: TermModel) -> TermModel {
    if m.cols[m.tab] <= 2 {
        m
    } else {
        let col = m.cols[m.tab] - 1;
        let row = m.frame[24];
        let shifted = if row[0].ascii == 36 {
            Seq::new(
                BUFFER_WIDTH as nat,
                |i: int|
                    if col <= i < 79 {
                        ScreenChar { ascii: row[i + 1].ascii, color: m.color }
                    } else {
                        row[i]
                    },
            )
        } else {
            row
        };
        let blanked = shifted.update(79, blank_char(m.color));
        let m1 = TermModel {
            frame: m.frame.update(24, blanked),
            cols: m.cols.update(m.tab, col),
            ..m
        };
        spec_update_cursor(m1, col)
    }
}

/// Insertion of a byte at the cursor: cells right of the cursor shift one
/// right (only on a command line; the last column is not touched), the byte
/// is written at the cursor with the current attribute, and the column
/// advances. A byte arriving with the column at the frame width is dropped.
pub open spec fn spec_insert(m: TermModel, byte: u8) -> TermModel {
    let col = m.cols[m.tab];
    if col >= BUFFER_WIDTH {
        m
    } else {
        let row = m.frame[24];
        let shifted = if row[0].ascii == 36 {
            Seq::new(
                BUFFER_WIDTH as nat,
                |i: int|
                    if col + 1 <= i < 79 {
                        ScreenChar { ascii: row[i - 1].ascii, color: m.color }
                    } else {
                        row[i]
                    },
            )
        } else {
            row
        };
        let written = shifted.update(col, ScreenChar { ascii: byte, color: m.color });
        let m1 = TermModel {
            frame: m.frame.update(24, written),
            cols: m.cols.update(m.tab, col + 1),
            ..m
        };
        if col + 1 < BUFFER_WIDTH {
            spec_update_cursor(m1, col + 1)
        } else {
            m1
        }
    }
}

/// One byte through `write_byte`: newline commits, backspace deletes,
/// anything else is inserted at the cursor.
pub open spec fn spec_write_byte(m: TermModel, byte: u8) -> TermModel {
    if byte == 10 {
        spec_new_line(m)
    } else if byte == 8 {
        spec_backspace(m)
    } else {
        spec_insert(m, byte)
    }
}

/// One byte through `write_string`: printable bytes, newline and backspace
/// pass to `write_byte`, a tab becomes four spaces, anything else is
/// dropped.
pub open spec fn spec_write_code(m: TermModel, byte: u8) -> TermModel {
    if (0x20 <= byte <= 0x7e) || byte == 10 || byte == 8 {
        spec_write_byte(m, byte)
    } else if byte == 9 {
        spec_write_byte(spec_write_byte(spec_write_byte(spec_write_byte(m, 32), 32), 32), 32)
    } else {
        m
    }
}

/// A whole byte sequence through `write_string`, in order.
pub open spec fn spec_write_bytes(m: TermModel, bytes: Seq<u8>) -> TermModel
    decreases bytes.len(),
{
    if bytes.len() <= 0 {
        m
    } else {
        spec_write_bytes(spec_write_code(m, bytes[0]), bytes.skip(1))
    }
}

/// Moving the editing cursor one column left or right: the saved cell is
/// restored at the old position, the column moves, clamped to the editable
/// region, and the cursor glyph is overlaid at the new position.
pub open spec fn spec_move_cursor(m: TermModel, off: int) -> TermModel {
    let col = m.cols[m.tab];
    if col > 78 && off > 0 {
        m
    } else {
        let f1 = if col < 80 {
            frame_set(m.frame, 24, col, m.behind)
        } else {
            m.frame
        };
        let col2 = if off > 0 && col < 80 {
            col + 1
        } else if off < 0 && col > 2 && col <= 80 {
            col - 1
        } else {
            col
        };
        let m1 = TermModel { frame: f1, cols: m.cols.update(m.tab, col2), ..m };
        if col2 < 80 {
            spec_update_cursor(m1, col2)
        } else {
            m1
        }
    }
}

/// Scrolling one line further into history, when history extends beyond
/// the visible rows and the offset has room; otherwise a no-op.
pub open spec fn spec_scroll_up(m: TermModel) -> TermModel {
    if m.rings[m.tab].size > 23 && m.scroll[m.tab] < m.rings[m.tab].size - 23 {
        spec_render(TermModel { scroll: m.scroll.update(m.tab, m.scroll[m.tab] + 1), ..m })
    } else {
        m
    }
}

/// Scrolling one line back toward the live view; a no-op at offset zero.
pub open spec fn spec_scroll_down(m: TermModel) -> TermModel {
    if m.scroll[m.tab] > 0 {
        spec_render(TermModel { scroll: m.scroll.update(m.tab, m.scroll[m.tab] - 1), ..m })
    } else {
        m
    }
}

/// Tab switching: zero cycles to the next tab, wrapping after the third;
/// one through three jump directly to that tab.
pub open spec fn spec_switch_tab(m: TermModel, n: int) -> TermModel {
    let tab = if n == 0 {
        if m.tab < 2 {
            m.tab + 1
        } else {
            0int
        }
    } else {
        n - 1
    };
    TermModel { tab, ..m }
}

/// The state of a freshly constructed writer.
pub open spec fn term_new() -> TermModel {
    TermModel {
        frame: Seq::new(BUFFER_HEIGHT as nat, |r: int| blank_line(initial_color())),
        cols: Seq::new(3, |t: int| 0int),
        color: ColorCode(attr(Color::Yellow, Color::Blue)),
        rings: Seq::new(3, |t: int| ring_new()),
        scroll: Seq::new(3, |t: int| 0int),
        cmd: false,
        tab: 0,
        behind: blank_char(initial_color()),
    }
}

/// The terminal writer.
pub struct Writer {
    column_position: Vec<usize>,
    color_code: ColorCode,
    frame: Frame,
    lines: Vec<LineRing>,
    scroll: Vec<usize>,
    cmd: bool,
    active_tab: usize,
    behind_cursor: ScreenChar,
}

impl View for Writer {
    type V = TermModel;

    closed spec fn view(&self) -> TermModel {
        TermModel {
            frame: self.frame@,
            cols: Seq::new(3, |t: int| self.column_position@[t] as int),
            color: self.color_code,
            rings: Seq::new(3, |t: int| self.lines@[t]@),
            scroll: Seq::new(3, |t: int| self.scroll@[t] as int),
            cmd: self.cmd,
            tab: self.active_tab as int,
            behind: self.behind_cursor,
        }
    }
}

impl Writer {
    pub closed spec fn fields_ok(&self) -> bool {
        &&& self.frame.wf()
        &&& self.column_position@.len() == 3
        &&& self.lines@.len() == 3
        &&& forall|t: int| 0 <= t < 3 ==> (#[trigger] self.lines@[t]).wf()
        &&& self.scroll@.len() == 3
        &&& self.active_tab < 3
    }

    pub open spec fn wf(&self) -> bool {
        self.fields_ok() && term_inv(self@)
    }

    /// A fresh writer: blank frame, empty rings, yellow-on-blue writing,
    /// the first tab active, command mode off.
    pub fn new() -> (r: Writer)
        ensures
            r.wf(),
            r@ == term_new(),
    {
        let mut column_position: Vec<usize> = Vec::new();
        column_position.push(0);
        column_position.push(0);
        column_position.push(0);
        let mut lines: Vec<LineRing> = Vec::new();
        lines.push(LineRing::new());
        lines.push(LineRing::new());
        lines.push(LineRing::new());
        let mut scroll: Vec<usize> = Vec::new();
        scroll.push(0);
        scroll.push(0);
        scroll.push(0);
        let r = Writer {
            column_position,
            color_code: ColorCode::new(Color::Yellow, Color::Blue),
            frame: Frame::new(),
            lines,
            scroll,
            cmd: false,
            active_tab: 0,
            behind_cursor: ScreenChar {
                ascii: 32u8,
                color: ColorCode::new(Color::White, Color::Black),
            },
        };
        proof {
            assert(r@.frame =~~= term_new().frame);
            assert(r@.cols =~= term_new().cols);
            assert(r@.rings =~= term_new().rings);
            assert(r@.scroll =~= term_new().scroll);
            assert(r@ == term_new());
        }
        r
    }

    /// Sets the attribute that subsequent writes carry; cells already on
    /// screen keep theirs.
    pub fn change_color(&mut self, foreground: Color, background: Color)
        requires
            old(self).wf(),
        ensures
            final(self).wf(),
            final(self)@ == (TermModel {
                color: ColorCode(attr(foreground, background)),
                ..old(self)@
            }),
    {
        self.color_code = ColorCode::new(foreground, background);
    }

    /// Sets or clears command mode.
    pub fn toggle_cmd(&mut self, state: bool)
        requires
            old(self).wf(),
        ensures
            final(self).wf(),
            final(self)@ == (TermModel { cmd: state, ..old(self)@ }),
    {
        self.cmd = state;
    }

    /// Switches the active tab: zero cycles, one through three jump.
    pub fn switch_tab(&mut self, n: usize)
        requires
            old(self).wf(),
            n <= 3,
        ensures
            final(self).wf(),
            final(self)@ == spec_switch_tab(old(self)@, n as int),
    {
        if n == 0 {
            if self.active_tab < 2 {
                self.active_tab = self.active_tab + 1;
            } else {
                self.active_tab = 0;
            }
        } else {
            self.active_tab = n - 1;
        }
    }

    /// A raw store of one cell of the frame, for external consumers that
    /// plot characters directly. The caller owes the bounds.
    pub fn set_vga_buffer(&mut self, row: usize, col: usize, byte: u8, color_code: ColorCode)
        requires
            old(self).wf(),
            row < BUFFER_HEIGHT,
            col < BUFFER_WIDTH,
        ensures
            final(self).wf(),
            final(self)@ == (TermModel {
                frame: frame_set(
                    old(self)@.frame,
                    row as int,
                    col as int,
                    ScreenChar { ascii: byte, color: color_code },
                ),
                ..old(self)@
            }),
    {
        self.frame.write(row, col, ScreenChar { ascii: byte, color: color_code });
    }

    /// A genuine load of one cell of the frame.
    pub fn read_vga_buffer(&self, row: usize, col: usize) -> (r: ScreenChar)
        requires
            self.wf(),
            row < BUFFER_HEIGHT,
            col < BUFFER_WIDTH,
        ensures
            r == self@.frame[row as int][col as int],
    {
        self.frame.read(row, col)
    }

    /// The active tab index.
    pub fn active_tab(&self) -> (t: usize)
        requires
            self.wf(),
        ensures
            t == self@.tab,
    {
        self.active_tab
    }

    /// The active tab's scroll offset.
    pub fn scroll_offset(&self) -> (s: usize)
        requires
            self.wf(),
        ensures
            s == self@.scroll[self@.tab],
    {
        self.scroll[self.active_tab]
    }

    /// How many lines the active tab's scrollback retains.
    pub fn history_len(&self) -> (n: usize)
        requires
            self.wf(),
        ensures
            n == self@.rings[self@.tab].size,
    {
        self.lines[self.active_tab].len()
    }

    /// A copy of the most recently committed line of the active tab.
    pub fn get_last_line(&self) -> (r: Vec<ScreenChar>)
        requires
            self.wf(),
        ensures
            r@ == self@.rings[self@.tab].slots[ring_last_slot(self@.rings[self@.tab])],
            r@.len() == BUFFER_WIDTH,
    {
        self.lines[self.active_tab].last_line()
    }

    /// Blanks one row of the frame with the current attribute.
    #[verifier::loop_isolation(false)]
    fn clear_row(&mut self, row: usize)
        requires
            old(self).wf(),
            row < BUFFER_HEIGHT,
        ensures
            final(self).wf(),
            final(self)@ == (TermModel {
                frame: old(self)@.frame.update(row as int, blank_line(old(self)@.color)),
                ..old(self)@
            }),
    {
        let blank = ScreenChar { ascii: 32u8, color: self.color_code };
        let mut col: usize = 0;
        proof {
            assert(Seq::new(
                BUFFER_WIDTH as nat,
                |i: int|
                    if i < 0 {
                        blank_char(old(self)@.color)
                    } else {
                        old(self)@.frame[row as int][i]
                    },
            ) =~= old(self)@.frame[row as int]);
            assert(old(self)@.frame.update(row as int, old(self)@.frame[row as int]) =~= old(
                self,
            )@.frame);
        }
        while col < BUFFER_WIDTH
            invariant
                col <= BUFFER_WIDTH,
                row < BUFFER_HEIGHT,
                self.fields_ok(),
                term_inv(self@),
                self@ == (TermModel {
                    frame: old(self)@.frame.update(
                        row as int,
                        Seq::new(
                            BUFFER_WIDTH as nat,
                            |i: int|
                                if i < col {
                                    blank_char(old(self)@.color)
                                } else {
                                    old(self)@.frame[row as int][i]
                                },
                        ),
                    ),
                    ..old(self)@
                }),
                blank == blank_char(old(self)@.color),
            decreases BUFFER_WIDTH - col,
        {
            let ghost prev = self@;
            self.frame.write(row, col, blank);
            proof {
                assert(self@.frame[row as int] =~= Seq::new(
                    BUFFER_WIDTH as nat,
                    |i: int|
                        if i < col + 1 {
                            blank_char(old(self)@.color)
                        } else {
                            old(self)@.frame[row as int][i]
                        },
                ));
                assert(self@.frame =~= old(self)@.frame.update(
                    row as int,
                    Seq::new(
                        BUFFER_WIDTH as nat,
                        |i: int|
                            if i < col + 1 {
                                blank_char(old(self)@.color)
                            } else {
                                old(self)@.frame[row as int][i]
                            },
                    ),
                ));
            }
            col += 1;
        }
        proof {
            assert(self@.frame[row as int] =~= blank_line(old(self)@.color));
            assert(self@.frame =~= old(self)@.frame.update(
                row as int,
                blank_line(old(self)@.color),
            ));
        }
    }

    /// Renders the status row for the active tab, and the prompt marker at
    /// the start of the bottom row when in command mode.
    #[verifier::loop_isolation(false)]
    fn print_interface(&mut self)
        requires
            old(self).wf(),
        ensures
            final(self).wf(),
            final(self)@ == spec_print_interface(old(self)@),
    {
        let color = if self.active_tab == 1 {
            Color::Red
        } else if self.active_tab == 2 {
            Color::Green
        } else {
            Color::LightBlue
        };
        let norm = ColorCode::new(color, Color::Black);
        let inv = ColorCode::new(Color::Black, color);
        let mut col: usize = 0;
        proof {
            assert(Seq::new(
                BUFFER_WIDTH as nat,
                |i: int|
                    if i < 0 {
                        ScreenChar { ascii: 196u8, color: norm }
                    } else {
                        old(self)@.frame[23][i]
                    },
            ) =~= old(self)@.frame[23]);
            assert(old(self)@.frame.update(23, old(self)@.frame[23]) =~= old(self)@.frame);
        }
        while col < BUFFER_WIDTH
            invariant
                col <= BUFFER_WIDTH,
                self.fields_ok(),
                term_inv(self@),
                color == tab_color(old(self)@.tab),
                norm == ColorCode(attr(tab_color(old(self)@.tab), Color::Black)),
                self@ == (TermModel {
                    frame: old(self)@.frame.update(
                        23,
                        Seq::new(
                            BUFFER_WIDTH as nat,
                            |i: int|
                                if i < col {
                                    ScreenChar { ascii: 196u8, color: norm }
                                } else {
                                    old(self)@.frame[23][i]
                                },
                        ),
                    ),
                    ..old(self)@
                }),
            decreases BUFFER_WIDTH - col,
        {
            self.frame.write(23, col, ScreenChar { ascii: 196u8, color: norm });
            proof {
                assert(self@.frame[23] =~= Seq::new(
                    BUFFER_WIDTH as nat,
                    |i: int|
                        if i < col + 1 {
                            ScreenChar { ascii: 196u8, color: norm }
                        } else {
                            old(self)@.frame[23][i]
                        },
                ));
                assert(self@.frame =~= old(self)@.frame.update(
                    23,
                    Seq::new(
                        BUFFER_WIDTH as nat,
                        |i: int|
                            if i < col + 1 {
                                ScreenChar { ascii: 196u8, color: norm }
                            } else {
                                old(self)@.frame[23][i]
                            },
                    ),
                ));
            }
            col += 1;
        }
        self.frame.write(23, 68, ScreenChar { ascii: 47u8, color: norm });
        self.frame.write(23, 69, ScreenChar { ascii: 32u8, color: norm });
        if self.active_tab == 0 {
            self.frame.write(23, 70, ScreenChar { ascii: 49u8, color: inv });
        } else {
            self.frame.write(23, 70, ScreenChar { ascii: 49u8, color: norm });
        }
        self.frame.write(23, 71, ScreenChar { ascii: 32u8, color: norm });
        if self.active_tab == 1 {
            self.frame.write(23, 72, ScreenChar { ascii: 50u8, color: inv });
        } else {
            self.frame.write(23, 72, ScreenChar { ascii: 50u8, color: norm });
        }
        self.frame.write(23, 73, ScreenChar { ascii: 32u8, color: norm });
        if self.active_tab == 2 {
            self.frame.write(23, 74, ScreenChar { ascii: 51u8, color: inv });
        } else {
            self.frame.write(23, 74, ScreenChar { ascii: 51u8, color: norm });
        }
        self.frame.write(23, 75, ScreenChar { ascii: 32u8, color: norm });
        self.frame.write(23, 76, ScreenChar { ascii: 47u8, color: norm });
        if self.cmd {
            self.frame.write(24, 0, ScreenChar { ascii: 36u8, color: norm });
            self.frame.write(24, 1, ScreenChar { ascii: 62u8, color: norm });
            self.frame.write(24, 2, ScreenChar { ascii: 32u8, color: inv });
        }
        proof {
            assert(self@.frame[23] =~= interface_row(old(self)@.tab));
            assert(self@.frame =~= spec_print_interface(old(self)@).frame);
        }
    }

    /// Re-renders the whole frame: the status row and the 23 visible rows
    /// copied from the active tab's ring at the current scroll offset.
    #[verifier::loop_isolation(false)]
    pub fn update_vga_buffer(&mut self)
        requires
            old(self).wf(),
        ensures
            final(self).wf(),
            final(self)@ == spec_render(old(self)@),
    {
        self.print_interface();
        let ghost m1 = spec_print_interface(old(self)@);
        let ghost ring = old(self)@.rings[old(self)@.tab];
        let tab = self.active_tab;
        let newest = self.lines[tab].newest_index();
        let scroll = self.scroll[tab];
        let mut row: usize = 0;
        proof {
            assert(Seq::new(
                BUFFER_HEIGHT as nat,
                |r: int|
                    if r < 0 {
                        ring.slots[render_slot(ring.newest, scroll as int, r)]
                    } else {
                        m1.frame[r]
                    },
            ) =~= m1.frame);
        }
        while row < BUFFER_HEIGHT - 2
            invariant
                row <= BUFFER_HEIGHT - 2,
                self.fields_ok(),
                term_inv(self@),
                m1 == spec_print_interface(old(self)@),
                ring == old(self)@.rings[old(self)@.tab],
                tab == old(self)@.tab,
                newest == ring.newest,
                scroll == old(self)@.scroll[old(self)@.tab],
                term_inv(old(self)@),
                self@ == (TermModel {
                    frame: Seq::new(
                        BUFFER_HEIGHT as nat,
                        |r: int|
                            if r < row {
                                ring.slots[render_slot(ring.newest, scroll as int, r)]
                            } else {
                                m1.frame[r]
                            },
                    ),
                    ..m1
                }),
            decreases BUFFER_HEIGHT - 2 - row,
        {
            let ghost at_entry = self@;
            self.clear_row(row);
            let slot = (LINE_NB - (BUFFER_HEIGHT - 2) + row + newest - scroll) % LINE_NB;
            proof {
                assert(slot == render_slot(ring.newest, scroll as int, row as int));
            }
            let mut col: usize = 0;
            proof {
                assert(Seq::new(
                    BUFFER_WIDTH as nat,
                    |i: int|
                        if i < 0 {
                            ring.slots[slot as int][i]
                        } else {
                            blank_char(at_entry.color)
                        },
                ) =~= blank_line(at_entry.color));
            }
            while col < BUFFER_WIDTH
                invariant
                    col <= BUFFER_WIDTH,
                    row < BUFFER_HEIGHT - 2,
                    self.fields_ok(),
                    term_inv(self@),
                    tab == old(self)@.tab,
                    tab < 3,
                    ring == self@.rings[tab as int],
                    ring_inv(ring),
                    slot < LINE_NB,
                    slot == render_slot(ring.newest, scroll as int, row as int),
                    at_entry.color == self@.color,
                    self@ == (TermModel {
                        frame: at_entry.frame.update(
                            row as int,
                            Seq::new(
                                BUFFER_WIDTH as nat,
                                |i: int|
                                    if i < col {
                                        ring.slots[slot as int][i]
                                    } else {
                                        blank_char(at_entry.color)
                                    },
                            ),
                        ),
                        ..at_entry
                    }),
                decreases BUFFER_WIDTH - col,
            {
                let cell = self.lines[tab].line_cell(slot, col);
                self.frame.write(row, col, cell);
                proof {
                    assert(self@.frame[row as int] =~= Seq::new(
                        BUFFER_WIDTH as nat,
                        |i: int|
                            if i < col + 1 {
                                ring.slots[slot as int][i]
                            } else {
                                blank_char(at_entry.color)
                            },
                    ));
                    assert(self@.frame =~= at_entry.frame.update(
                        row as int,
                        Seq::new(
                            BUFFER_WIDTH as nat,
                            |i: int|
                                if i < col + 1 {
                                    ring.slots[slot as int][i]
                                } else {
                                    blank_char(at_entry.color)
                                },
                        ),
                    ));
                }
                col += 1;
            }
            proof {
                assert(self@.frame[row as int] =~= ring.slots[slot as int]);
                assert(self@.frame =~= Seq::new(
                    BUFFER_HEIGHT as nat,
                    |r: int|
                        if r < row + 1 {
                            ring.slots[render_slot(ring.newest, scroll as int, r)]
                        } else {
                            m1.frame[r]
                        },
                ));
            }
            row += 1;
        }
        proof {
            assert(self@.frame =~= spec_render(old(self)@).frame);
        }
    }

    /// Scrolls one line further into history when there is room; otherwise
    /// a no-op, so repeated calls stop at the oldest visible window.
    pub fn scroll_up(&mut self)
        requires
            old(self).wf(),
        ensures
            final(self).wf(),
            final(self)@ == spec_scroll_up(old(self)@),
    {
        let tab = self.active_tab;
        let size = self.lines[tab].len();
        if size > BUFFER_HEIGHT - 2 && self.scroll[tab] < size - (BUFFER_HEIGHT - 2) {
            self.scroll[tab] = self.scroll[tab] + 1;
            proof {
                assert(self@.scroll =~= old(self)@.scroll.update(
                    tab as int,
                    old(self)@.scroll[tab as int] + 1,
                ));
            }
            self.update_vga_buffer();
        }
    }

    /// Scrolls one line back toward the live view; a no-op at offset zero.
    pub fn scroll_down(&mut self)
        requires
            old(self).wf(),
        ensures
            final(self).wf(),
            final(self)@ == spec_scroll_down(old(self)@),
    {
        let tab = self.active_tab;
        if self.scroll[tab] > 0 {
            self.scroll[tab] = self.scroll[tab] - 1;
            proof {
                assert(self@.scroll =~= old(self)@.scroll.update(
                    tab as int,
                    old(self)@.scroll[tab as int] - 1,
                ));
            }
            self.update_vga_buffer();
        }
    }

    /// Saves the cell at `position` of the bottom row and overlays the
    /// cursor glyph there, color-inverted in the active tab's accent color.
    fn update_cursor(&mut self, position: usize)
        requires
            old(self).wf(),
            position < BUFFER_WIDTH,
        ensures
            final(self).wf(),
            final(self)@ == spec_update_cursor(old(self)@, position as int),
    {
        let row = BUFFER_HEIGHT - 1;
        let cell = self.frame.read(row, position);
        self.behind_cursor = cell;
        let cursor = match self.active_tab {
            0 => ScreenChar { ascii: cell.ascii, color: ColorCode::new(Color::Black, Color::LightBlue) },
            1 => ScreenChar { ascii: cell.ascii, color: ColorCode::new(Color::Black, Color::Red) },
            2 => ScreenChar { ascii: cell.ascii, color: ColorCode::new(Color::Black, Color::Green) },
            _ => ScreenChar { ascii: cell.ascii, color: ColorCode::new(Color::Black, Color::Black) },
        };
        self.frame.write(row, position, cursor);
    }

    /// Commits the bottom row: normalizes its colors, pushes it into the
    /// active tab's ring, blanks the row, resets column and scroll,
    /// re-renders, and leaves command mode.
    #[verifier::loop_isolation(false)]
    fn new_line(&mut self)
        requires
            old(self).wf(),
        ensures
            final(self).wf(),
            final(self)@ == spec_new_line(old(self)@),
    {
        let ghost m0 = old(self)@;
        let mut line: Vec<ScreenChar> = Vec::new();
        let mut col: usize = 0;
        while col < BUFFER_WIDTH
            invariant
                col <= BUFFER_WIDTH,
                line@.len() == col,
                forall|k: int|
                    0 <= k < col ==> line@[k] == commit_line(m0.frame[24], m0.color)[k],
            decreases BUFFER_WIDTH - col,
        {
            let mut ch = self.frame.read(BUFFER_HEIGHT - 1, col);
            if ch.color != self.color_code && (col > 1 || (ch.ascii != 36 && ch.ascii != 62)) {
                ch.color = self.color_code;
            }
            line.push(ch);
            col += 1;
        }
        proof {
            assert(line@ =~= commit_line(m0.frame[24], m0.color));
        }
        let tab = self.active_tab;
        self.lines[tab].push_new_line(line);
        proof {
            assert(self@.rings =~= m0.rings.update(
                tab as int,
                ring_push(m0.rings[tab as int], commit_line(m0.frame[24], m0.color)),
            ));
        }
        self.clear_row(BUFFER_HEIGHT - 1);
        if self.cmd {
            self.column_position[tab] = 2;
        } else {
            self.column_position[tab] = 0;
        }
        self.scroll[tab] = 0;
        proof {
            assert(self@.cols =~= m0.cols.update(tab as int, if m0.cmd { 2int } else { 0int }));
            assert(self@.scroll =~= m0.scroll.update(tab as int, 0int));
        }
        self.update_vga_buffer();
        if self.cmd {
            self.cmd = false;
        }
        proof {
            assert(final(self)@ == spec_new_line(m0));
        }
    }

    /// One byte of output: newline commits the line, backspace deletes one
    /// cell left of the cursor, any other byte is inserted at the cursor.
    /// A byte arriving with the column at the frame width is dropped, never
    /// wrapped, so it cannot touch any other row.
    #[verifier::loop_isolation(false)]
    pub fn write_byte(&mut self, byte: u8)
        requires
            old(self).wf(),
        ensures
            final(self).wf(),
            final(self)@ == spec_write_byte(old(self)@, byte),
    {
        let ghost m0 = old(self)@;
        if byte == 10 {
            self.new_line();
        } else if byte == 8 {
            let tab = self.active_tab;
            if self.column_position[tab] > 2 {
                self.column_position[tab] = self.column_position[tab] - 1;
                let row = BUFFER_HEIGHT - 1;
                let col = self.column_position[tab];
                let ghost colm = m0.cols[tab as int] - 1;
                let ghost orig = m0.frame[24];
                let ghost shifted = if orig[0].ascii == 36 {
                    Seq::new(
                        BUFFER_WIDTH as nat,
                        |i: int|
                            if colm <= i < 79 {
                                ScreenChar { ascii: orig[i + 1].ascii, color: m0.color }
                            } else {
                                orig[i]
                            },
                    )
                } else {
                    orig
                };
                proof {
                    assert(self@.cols =~= m0.cols.update(tab as int, colm));
                }
                if self.frame.read(row, 0).ascii == 36 {
                    let mut i: usize = col;
                    proof {
                        assert(m0.frame.update(24, Seq::new(
                            BUFFER_WIDTH as nat,
                            |k: int|
                                if colm <= k < col {
                                    ScreenChar { ascii: orig[k + 1].ascii, color: m0.color }
                                } else {
                                    orig[k]
                                },
                        )) =~~= m0.frame);
                    }
                    while i < BUFFER_WIDTH - 1
                        invariant
                            col <= i <= BUFFER_WIDTH - 1,
                            self.fields_ok(),
                            term_inv(self@),
                            self@ == (TermModel {
                                frame: m0.frame.update(
                                    24,
                                    Seq::new(
                                        BUFFER_WIDTH as nat,
                                        |k: int|
                                            if colm <= k < i {
                                                ScreenChar {
                                                    ascii: orig[k + 1].ascii,
                                                    color: m0.color,
                                                }
                                            } else {
                                                orig[k]
                                            },
                                    ),
                                ),
                                cols: m0.cols.update(tab as int, colm),
                                ..m0
                            }),
                        decreases BUFFER_WIDTH - i,
                    {
                        let next = self.frame.read(row, i + 1);
                        self.frame.write(
                            row,
                            i,
                            ScreenChar { ascii: next.ascii, color: self.color_code },
                        );
                        proof {
                            assert(self@.frame[24] =~= Seq::new(
                                BUFFER_WIDTH as nat,
                                |k: int|
                                    if colm <= k < i + 1 {
                                        ScreenChar { ascii: orig[k + 1].ascii, color: m0.color }
                                    } else {
                                        orig[k]
                                    },
                            ));
                            assert(self@.frame =~= m0.frame.update(24, self@.frame[24]));
                        }
                        i += 1;
                    }
                    proof {
                        assert(self@.frame[24] =~= shifted);
                        assert(self@.frame =~= m0.frame.update(24, shifted));
                    }
                }
                self.frame.write(
                    row,
                    BUFFER_WIDTH - 1,
                    ScreenChar { ascii: 32u8, color: self.color_code },
                );
                proof {
                    assert(self@.frame =~= m0.frame.update(
                        24,
                        shifted.update(79, blank_char(m0.color)),
                    ));
                }
                self.update_cursor(col);
                proof {
                    assert(final(self)@ == spec_backspace(m0));
                }
            }
        } else {
            let tab = self.active_tab;
            if self.column_position[tab] >= BUFFER_WIDTH {
                proof {
                    assert(final(self)@ == spec_insert(m0, byte));
                }
                return ;
            }
            let row = BUFFER_HEIGHT - 1;
            let col = self.column_position[tab];
            let color_code = self.color_code;
            let ghost orig = m0.frame[24];
            let ghost shifted = if orig[0].ascii == 36 {
                Seq::new(
                    BUFFER_WIDTH as nat,
                    |i: int|
                        if col + 1 <= i < 79 {
                            ScreenChar { ascii: orig[i - 1].ascii, color: m0.color }
                        } else {
                            orig[i]
                        },
                )
            } else {
                orig
            };
            if self.frame.read(row, 0).ascii == 36 {
                let mut i: usize = BUFFER_WIDTH - 1;
                proof {
                    assert(m0.frame.update(24, Seq::new(
                        BUFFER_WIDTH as nat,
                        |k: int|
                            if BUFFER_WIDTH - 1 <= k <= 78 {
                                ScreenChar { ascii: orig[k - 1].ascii, color: m0.color }
                            } else {
                                orig[k]
                            },
                    )) =~~= m0.frame);
                }
                while i > col + 1
                    invariant
                        i <= BUFFER_WIDTH - 1,
                        col < BUFFER_WIDTH - 1 ==> i >= col + 1,
                        col >= BUFFER_WIDTH - 1 ==> i == BUFFER_WIDTH - 1,
                        self.fields_ok(),
                        term_inv(self@),
                        self@ == (TermModel {
                            frame: m0.frame.update(
                                24,
                                Seq::new(
                                    BUFFER_WIDTH as nat,
                                    |k: int|
                                        if i <= k <= 78 {
                                            ScreenChar {
                                                ascii: orig[k - 1].ascii,
                                                color: m0.color,
                                            }
                                        } else {
                                            orig[k]
                                        },
                                ),
                            ),
                            ..m0
                        }),
                    decreases i,
                {
                    i = i - 1;
                    let prev = self.frame.read(row, i - 1);
                    self.frame.write(
                        row,
                        i,
                        ScreenChar { ascii: prev.ascii, color: self.color_code },
                    );
                    proof {
                        assert(self@.frame[24] =~= Seq::new(
                            BUFFER_WIDTH as nat,
                            |k: int|
                                if i <= k <= 78 {
                                    ScreenChar { ascii: orig[k - 1].ascii, color: m0.color }
                                } else {
                                    orig[k]
                                },
                        ));
                        assert(self@.frame =~= m0.frame.update(24, self@.frame[24]));
                    }
                }
                proof {
                    assert(self@.frame[24] =~= shifted);
                    assert(self@.frame =~= m0.frame.update(24, shifted));
                }
            }
            self.frame.write(row, col, ScreenChar { ascii: byte, color: color_code });
            proof {
                assert(self@.frame =~= m0.frame.update(
                    24,
                    shifted.update(col as int, ScreenChar { ascii: byte, color: m0.color }),
                ));
            }
            self.column_position[tab] = self.column_position[tab] + 1;
            proof {
                assert(self@.cols =~= m0.cols.update(tab as int, m0.cols[tab as int] + 1));
            }
            if self.column_position[tab] < BUFFER_WIDTH {
                self.update_cursor(self.column_position[tab]);
            }
            proof {
                assert(final(self)@ == spec_insert(m0, byte));
            }
        }
    }

    /// Moves the editing cursor one column left or right, restoring the
    /// saved cell at the old position and overlaying the glyph at the new
    /// one, clamped to the editable region.
    pub fn move_cursor(&mut self, offset: i8)
        requires
            old(self).wf(),
        ensures
            final(self).wf(),
            final(self)@ == spec_move_cursor(old(self)@, offset as int),
    {
        let ghost m0 = old(self)@;
        let row = BUFFER_HEIGHT - 1;
        let tab = self.active_tab;
        let col = self.column_position[tab];
        if col > BUFFER_WIDTH - 2 && offset > 0 {
            return ;
        }
        if col < BUFFER_WIDTH {
            self.frame.write(row, col, self.behind_cursor);
        }
        if offset > 0 && col < BUFFER_WIDTH {
            self.column_position[tab] = self.column_position[tab] + 1;
        }
        if offset < 0 && col > 2 && col <= BUFFER_WIDTH {
            self.column_position[tab] = self.column_position[tab] - 1;
        }
        proof {
            let col2 = if offset > 0 && col < 80 {
                col + 1
            } else if offset < 0 && col > 2 && col <= 80 {
                (col - 1) as int
            } else {
                col as int
            };
            assert(self@.cols =~= m0.cols.update(tab as int, col2));
        }
        if self.column_position[tab] < BUFFER_WIDTH {
            let pos = self.column_position[tab];
            self.update_cursor(pos);
        }
        proof {
            assert(final(self)@ == spec_move_cursor(m0, offset as int));
        }
    }

    /// One byte of the string path: printable bytes, newline and backspace
    /// go to `write_byte`, a tab becomes four spaces, the rest is dropped.
    pub(crate) fn write_code(&mut self, byte: u8)
        requires
            old(self).wf(),
        ensures
            final(self).wf(),
            final(self)@ == spec_write_code(old(self)@, byte),
    {
        if (0x20 <= byte && byte <= 0x7e) || byte == 10 || byte == 8 {
            self.write_byte(byte);
        } else if byte == 9 {
            self.write_byte(32);
            self.write_byte(32);
            self.write_byte(32);
            self.write_byte(32);
        }
    }

    /// Writes a string byte by byte: printable bytes, newline and
    /// backspace are applied, a tab becomes four spaces, anything else is
    /// dropped.
    #[verifier::loop_isolation(false)]
    pub fn write_string(&mut self, s: &str)
        requires
            old(self).wf(),
        ensures
            final(self).wf(),
            final(self)@ == spec_write_bytes(old(self)@, s.spec_bytes()),
    {
        let bytes = s.as_bytes();
        let n = bytes.len();
        let mut i: usize = 0;
        proof {
            assert(bytes@.take(0) =~= Seq::<u8>::empty());
        }
        while i < n
            invariant
                i <= n,
                self.wf(),
                self@ == spec_write_bytes(old(self)@, bytes@.take(i as int)),
            decreases n - i,
        {
            let b = bytes[i];
            self.write_code(b);
            proof {
                assert(bytes@.take(i + 1) =~= bytes@.take(i as int).push(b));
                lemma_write_bytes_snoc(old(self)@, bytes@.take(i as int), b);
            }
            i += 1;
        }
        proof {
            assert(bytes@.take(n as int) =~= bytes@);
        }
    }


    /// Writes a byte range of a buffer through the string path, in order.
    #[verifier::loop_isolation(false)]
    pub fn write_bytes_range(&mut self, v: &Vec<u8>, from: usize, to: usize)
        requires
            old(self).wf(),
            from <= to <= v@.len(),
        ensures
            final(self).wf(),
            final(self)@ == spec_write_bytes(old(self)@, v@.subrange(from as int, to as int)),
    {
        let mut i: usize = from;
        proof {
            assert(v@.subrange(from as int, from as int) =~= Seq::<u8>::empty());
        }
        while i < to
            invariant
                from <= i <= to,
                self.wf(),
                self@ == spec_write_bytes(old(self)@, v@.subrange(from as int, i as int)),
            decreases to - i,
        {
            let b = v[i];
            self.write_code(b);
            proof {
                assert(v@.subrange(from as int, i + 1) =~= v@.subrange(from as int, i as int).push(
                    b,
                ));
                lemma_write_bytes_snoc(old(self)@, v@.subrange(from as int, i as int), b);
            }
            i += 1;
        }
    }

    /// Writes a whole byte buffer through the string path, in order.
    pub fn write_bytes(&mut self, bytes: &Vec<u8>)
        requires
            old(self).wf(),
        ensures
            final(self).wf(),
            final(self)@ == spec_write_bytes(old(self)@, bytes@),
    {
        let n = bytes.len();
        self.write_bytes_range(bytes, 0, n);
        proof {
            assert(bytes@.subrange(0, n as int) =~= bytes@);
        }
    }

    /// Resets the active tab's scrollback to a single blank line carrying
    /// the current attribute.
    pub fn clear_terminal(&mut self)
        requires
            old(self).wf(),
        ensures
            final(self).wf(),
            final(self)@ == (TermModel {
                rings: old(self)@.rings.update(
                    old(self)@.tab,
                    ring_clear(old(self)@.rings[old(self)@.tab], old(self)@.color),
                ),
                ..old(self)@
            }),
    {
        let color = self.color_code;
        let tab = self.active_tab;
        self.lines[tab].clear(color);
        proof {
            assert(final(self)@.rings =~= old(self)@.rings.update(
                old(self)@.tab,
                ring_clear(old(self)@.rings[old(self)@.tab], old(self)@.color),
            ));
        }
    }
}

/// Writing one more byte after a sequence is the same as writing the
/// extended sequence.
pub proof fn lemma_write_bytes_snoc(m: TermModel, bytes: Seq<u8>, b: u8)
    ensures
        spec_write_bytes(m, bytes.push(b)) == spec_write_code(spec_write_bytes(m, bytes), b),
    decreases bytes.len(),
{
    if bytes.len() == 0 {
        assert(bytes.push(b)[0] == b);
        assert(bytes.push(b).skip(1) =~= Seq::<u8>::empty());
        assert(spec_write_bytes(m, bytes.push(b)) == spec_write_bytes(
            spec_write_code(m, b),
            bytes.push(b).skip(1),
        ));
        assert(spec_write_bytes(spec_write_code(m, b), Seq::<u8>::empty()) == spec_write_code(
            m,
            b,
        ));
        assert(spec_write_bytes(m, bytes) == m);
    } else {
        assert(bytes.push(b)[0] == bytes[0]);
        assert(bytes.push(b).skip(1) =~= bytes.skip(1).push(b));
        lemma_write_bytes_snoc(spec_write_code(m, bytes[0]), bytes.skip(1), b);
        assert(spec_write_bytes(m, bytes.push(b)) == spec_write_bytes(
            spec_write_code(m, bytes[0]),
            bytes.skip(1).push(b),
        ));
        assert(spec_write_bytes(m, bytes) == spec_write_bytes(
            spec_write_code(m, bytes[0]),
            bytes.skip(1),
        ));
    }
}

/// Writing a concatenation is writing the first part, then the second.
pub proof fn lemma_write_bytes_append(m: TermModel, a: Seq<u8>, b: Seq<u8>)
    ensures
        spec_write_bytes(m, a + b) == spec_write_bytes(spec_write_bytes(m, a), b),
    decreases a.len(),
{
    if a.len() == 0 {
        assert(a + b =~= b);
        assert(spec_write_bytes(m, a) == m);
    } else {
        assert((a + b)[0] == a[0]);
        assert((a + b).skip(1) =~= a.skip(1) + b);
        assert((a + b).len() > 0);
        lemma_write_bytes_append(spec_write_code(m, a[0]), a.skip(1), b);
        assert(spec_write_bytes(m, a + b) == spec_write_bytes(
            spec_write_code(m, a[0]),
            (a + b).skip(1),
        ));
        assert(spec_write_bytes(m, a) == spec_write_bytes(spec_write_code(m, a[0]), a.skip(1)));
    }
}

/// Law: a printable byte arriving with the column already at the frame
/// width is dropped entirely, and an insertion never touches any row but
/// the bottom one, so no adjacent row can be corrupted by typing past the
/// last column.
pub proof fn lemma_insert_overflow_dropped(m: TermModel, byte: u8)
    requires
        term_inv(m),
    ensures
        m.cols[m.tab] == BUFFER_WIDTH ==> spec_insert(m, byte) == m,
        forall|r: int|
            0 <= r < BUFFER_HEIGHT && r != 24 ==> spec_insert(m, byte).frame[r] == m.frame[r],
{
}

/// Law: setting the writing color and then writing a byte stores a cell
/// whose attribute unpacks to exactly the foreground and background that
/// were set.
pub proof fn lemma_change_color_write_roundtrip(m: TermModel, fg: Color, bg: Color, byte: u8)
    requires
        term_inv(m),
        m.cols[m.tab] < BUFFER_WIDTH,
    ensures
        ({
            let changed = TermModel { color: ColorCode(attr(fg, bg)), ..m };
            let written = spec_insert(changed, byte);
            let cell = written.frame[24][m.cols[m.tab]];
            &&& cell == (ScreenChar { ascii: byte, color: ColorCode(attr(fg, bg)) })
            &&& crate::color::color_of_num(crate::color::fg_of(cell.color.0)) == fg
            &&& crate::color::color_of_num(crate::color::bg_of(cell.color.0)) == bg
        }),
{
    crate::color::lemma_attr_unpack(fg, bg);
    let changed = TermModel { color: ColorCode(attr(fg, bg)), ..m };
    let col = m.cols[m.tab];
    let written = spec_insert(changed, byte);
    if col + 1 < BUFFER_WIDTH {
        assert(written.frame[24][col] == spec_insert_row(changed, byte)[col]);
    }
}

/// The bottom row just after the insertion step of `spec_insert`, before
/// any cursor overlay.
pub open spec fn spec_insert_row(m: TermModel, byte: u8) -> Seq<ScreenChar> {
    let col = m.cols[m.tab];
    let row = m.frame[24];
    let shifted = if row[0].ascii == 36 {
        Seq::new(
            BUFFER_WIDTH as nat,
            |i: int|
                if col + 1 <= i < 79 {
                    ScreenChar { ascii: row[i - 1].ascii, color: m.color }
                } else {
                    row[i]
                },
        )
    } else {
        row
    };
    shifted.update(col, ScreenChar { ascii: byte, color: m.color })
}

} // verus!
