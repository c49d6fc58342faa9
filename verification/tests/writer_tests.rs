use kfs::color::{Color, ColorCode};
use kfs::writer::Writer;

#[test]
fn fresh_frame_is_blank() {
    let w = Writer::new();
    for row in 0..25 {
        for col in 0..80 {
            let cell = w.read_vga_buffer(row, col);
            assert_eq!(cell.ascii, b' ');
            assert_eq!(cell.color, ColorCode::new(Color::White, Color::Black));
        }
    }
    assert_eq!(w.active_tab(), 0);
    assert_eq!(w.scroll_offset(), 0);
    assert_eq!(w.history_len(), 0);
}

#[test]
fn write_byte_places_cell_and_advances() {
    let mut w = Writer::new();
    w.write_byte(b'A');
    let cell = w.read_vga_buffer(24, 0);
    assert_eq!(cell.ascii, b'A');
    assert_eq!(cell.color, ColorCode::new(Color::Yellow, Color::Blue));
    // The cursor glyph sits one column right, color-inverted for tab 0.
    let cursor = w.read_vga_buffer(24, 1);
    assert_eq!(cursor.ascii, b' ');
    assert_eq!(cursor.color, ColorCode::new(Color::Black, Color::LightBlue));
}

#[test]
fn byte_at_last_column_is_dropped_not_wrapped() {
    // Fill the bottom row to the last column, then write once more: the
    // extra byte must vanish without touching any other row.
    let mut w = Writer::new();
    for _ in 0..80 {
        w.write_byte(b'A');
    }
    w.write_byte(b'B');
    for col in 0..80 {
        assert_eq!(w.read_vga_buffer(24, col).ascii, b'A');
    }
    for row in 0..24 {
        for col in 0..80 {
            assert_eq!(w.read_vga_buffer(row, col).ascii, b' ');
            assert_eq!(
                w.read_vga_buffer(row, col).color,
                ColorCode::new(Color::White, Color::Black)
            );
        }
    }
}

#[test]
fn color_round_trip_on_next_written_cell() {
    let mut w = Writer::new();
    w.change_color(Color::Red, Color::Black);
    w.write_byte(b'X');
    let cell = w.read_vga_buffer(24, 0);
    assert_eq!(cell.ascii, b'X');
    assert_eq!(cell.color, ColorCode::new(Color::Red, Color::Black));
    w.change_color(Color::LightCyan, Color::Magenta);
    w.write_byte(b'Y');
    let cell2 = w.read_vga_buffer(24, 1);
    assert_eq!(cell2.color, ColorCode::new(Color::LightCyan, Color::Magenta));
}

#[test]
fn tab_switch_cycles_and_jumps() {
    let mut w = Writer::new();
    assert_eq!(w.active_tab(), 0);
    w.switch_tab(0);
    w.switch_tab(0);
    w.switch_tab(0);
    assert_eq!(w.active_tab(), 0);
    w.switch_tab(3);
    assert_eq!(w.active_tab(), 2);
    w.switch_tab(0);
    assert_eq!(w.active_tab(), 0);
    w.switch_tab(2);
    assert_eq!(w.active_tab(), 1);
    w.switch_tab(1);
    assert_eq!(w.active_tab(), 0);
}

#[test]
fn scroll_clamps_to_history_beyond_visible_rows() {
    // 50 committed lines, 23 visible rows: the offset may grow to 27 and
    // no further; scrolling down stops at zero.
    let mut w = Writer::new();
    for _ in 0..50 {
        w.write_byte(b'\n');
    }
    assert_eq!(w.history_len(), 50);
    for _ in 0..30 {
        w.scroll_up();
    }
    assert_eq!(w.scroll_offset(), 27);
    w.scroll_up();
    assert_eq!(w.scroll_offset(), 27);
    for _ in 0..27 {
        w.scroll_down();
    }
    assert_eq!(w.scroll_offset(), 0);
    w.scroll_down();
    assert_eq!(w.scroll_offset(), 0);
}

#[test]
fn newline_resets_scroll() {
    let mut w = Writer::new();
    for _ in 0..40 {
        w.write_byte(b'\n');
    }
    w.scroll_up();
    w.scroll_up();
    assert_eq!(w.scroll_offset(), 2);
    w.write_byte(b'\n');
    assert_eq!(w.scroll_offset(), 0);
}

#[test]
fn command_prompt_reserves_two_columns() {
    let mut w = Writer::new();
    w.toggle_cmd(true);
    w.write_byte(b'\n');
    assert_eq!(w.read_vga_buffer(24, 0).ascii, b'$');
    assert_eq!(w.read_vga_buffer(24, 1).ascii, b'>');
    // The next typed byte lands after the prompt marker.
    w.write_byte(b'a');
    assert_eq!(w.read_vga_buffer(24, 2).ascii, b'a');
}

#[test]
fn backspace_deletes_on_command_line() {
    let mut w = Writer::new();
    w.toggle_cmd(true);
    w.write_byte(b'\n');
    w.write_byte(b'a');
    w.write_byte(b'b');
    assert_eq!(w.read_vga_buffer(24, 3).ascii, b'b');
    w.write_byte(0x08);
    assert_eq!(w.read_vga_buffer(24, 2).ascii, b'a');
    assert_eq!(w.read_vga_buffer(24, 3).ascii, b' ');
}

#[test]
fn backspace_stops_at_editable_region() {
    let mut w = Writer::new();
    w.toggle_cmd(true);
    w.write_byte(b'\n');
    // Column is 2, the start of the editable region: backspace is a no-op.
    w.write_byte(0x08);
    assert_eq!(w.read_vga_buffer(24, 0).ascii, b'$');
    assert_eq!(w.read_vga_buffer(24, 1).ascii, b'>');
    w.write_byte(b'x');
    assert_eq!(w.read_vga_buffer(24, 2).ascii, b'x');
}

#[test]
fn committed_line_is_read_back() {
    let mut w = Writer::new();
    w.toggle_cmd(true);
    w.write_byte(b'\n');
    w.write_byte(b'h');
    w.write_byte(b'i');
    w.write_byte(b'\n');
    let line = w.get_last_line();
    assert_eq!(line.len(), 80);
    assert_eq!(line[0].ascii, b'$');
    assert_eq!(line[1].ascii, b'>');
    assert_eq!(line[2].ascii, b'h');
    assert_eq!(line[3].ascii, b'i');
    assert_eq!(line[4].ascii, b' ');
}

#[test]
fn write_string_filters_unprintable_and_expands_tab() {
    let mut w = Writer::new();
    w.write_string("a\tb\x01c");
    assert_eq!(w.read_vga_buffer(24, 0).ascii, b'a');
    for col in 1..5 {
        assert_eq!(w.read_vga_buffer(24, col).ascii, b' ');
    }
    assert_eq!(w.read_vga_buffer(24, 5).ascii, b'b');
    // The unprintable byte is dropped, so 'c' follows immediately.
    assert_eq!(w.read_vga_buffer(24, 6).ascii, b'c');
}

#[test]
fn interface_row_marks_active_tab() {
    let mut w = Writer::new();
    w.write_byte(b'\n');
    assert_eq!(w.read_vga_buffer(23, 0).ascii, 0xc4);
    assert_eq!(w.read_vga_buffer(23, 68).ascii, b'/');
    assert_eq!(w.read_vga_buffer(23, 70).ascii, b'1');
    assert_eq!(
        w.read_vga_buffer(23, 70).color,
        ColorCode::new(Color::Black, Color::LightBlue)
    );
    assert_eq!(
        w.read_vga_buffer(23, 72).color,
        ColorCode::new(Color::LightBlue, Color::Black)
    );
}

#[test]
fn clear_terminal_resets_history() {
    let mut w = Writer::new();
    for _ in 0..5 {
        w.write_byte(b'\n');
    }
    assert_eq!(w.history_len(), 5);
    w.clear_terminal();
    assert_eq!(w.history_len(), 1);
    let line = w.get_last_line();
    for cell in &line {
        assert_eq!(cell.ascii, b' ');
    }
}

#[test]
fn raw_cell_store_and_load() {
    // A store through the raw plotting entry must be read back exactly,
    // and must leave its neighbors alone.
    let mut w = Writer::new();
    let color = ColorCode::new(Color::Green, Color::Black);
    w.set_vga_buffer(5, 7, b'Q', color);
    let cell = w.read_vga_buffer(5, 7);
    assert_eq!(cell.ascii, b'Q');
    assert_eq!(cell.color, color);
    assert_eq!(w.read_vga_buffer(5, 8).ascii, b' ');
    assert_eq!(w.read_vga_buffer(5, 6).ascii, b' ');
    assert_eq!(w.read_vga_buffer(4, 7).ascii, b' ');
}

#[test]
fn move_cursor_restores_saved_cell() {
    let mut w = Writer::new();
    w.toggle_cmd(true);
    w.write_byte(b'\n');
    w.write_byte(b'a');
    w.write_byte(b'b');
    // Move left twice: the cursor may not leave the editable region.
    w.move_cursor(-1);
    w.move_cursor(-1);
    w.move_cursor(-1);
    assert_eq!(w.read_vga_buffer(24, 2).ascii, b'a');
    // Moving right again restores what was under the glyph.
    w.move_cursor(1);
    w.move_cursor(1);
    assert_eq!(w.read_vga_buffer(24, 2).ascii, b'a');
    assert_eq!(w.read_vga_buffer(24, 3).ascii, b'b');
}
