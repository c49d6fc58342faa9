use kfs::color::{Color, ColorCode};
use kfs::keyboard::KeyboardState;
use kfs::shell::{
    atousize, call_function, handle_keyboard_input, print_welcome_screen, CommandKind, HwRequest,
};
use kfs::writer::Writer;

fn cmd_line(text: &str) -> Vec<u8> {
    let mut line = Vec::from(text.as_bytes());
    while line.len() < 80 {
        line.push(b' ');
    }
    line
}

#[test]
fn typed_help_dispatches_exactly_once() {
    // Scan codes for '$', '>', 'h', 'e', 'l', 'p', Enter: shift down, the
    // 4 key, the dot key, shift up, then the four letters and Enter. Only
    // the Enter stroke may dispatch, and it must select the help handler.
    let mut w = Writer::new();
    let mut ks = KeyboardState::new();
    let scans = [42u8, 5, 52, 170, 35, 18, 38, 25, 28];
    let mut help_count = 0;
    let mut other_count = 0;
    for &scan in &scans {
        let outcome = handle_keyboard_input(&mut w, &mut ks, scan);
        match outcome.dispatched {
            Some(CommandKind::Help) => help_count += 1,
            Some(_) => other_count += 1,
            None => {}
        }
        assert_eq!(outcome.request, HwRequest::Nothing);
    }
    assert_eq!(help_count, 1);
    assert_eq!(other_count, 0);
    // The help text went through the writer: its closing line is the most
    // recently committed one.
    let line = w.get_last_line();
    let text: Vec<u8> = line.iter().map(|c| c.ascii).collect();
    assert!(text.starts_with(b"There might be other hidden features..."));
}

#[test]
fn line_without_prompt_marker_is_ignored() {
    let mut w = Writer::new();
    let mut ks = KeyboardState::new();
    // h, e, l, l, o, Enter: committed, but no "$>" prefix, so no dispatch.
    for &scan in &[35u8, 18, 38, 38, 24, 28] {
        let outcome = handle_keyboard_input(&mut w, &mut ks, scan);
        assert_eq!(outcome.dispatched, None);
        assert_eq!(outcome.request, HwRequest::Nothing);
    }
    let line = w.get_last_line();
    assert_eq!(line[0].ascii, b'h');
    assert_eq!(line[4].ascii, b'o');
}

#[test]
fn non_utf8_line_is_reported_and_discarded() {
    let mut w = Writer::new();
    let mut ks = KeyboardState::new();
    w.set_vga_buffer(24, 0, 0xff, ColorCode::new(Color::White, Color::Black));
    let outcome = handle_keyboard_input(&mut w, &mut ks, 28);
    assert_eq!(outcome.dispatched, None);
    assert_eq!(outcome.request, HwRequest::Nothing);
    let line = w.get_last_line();
    let text: Vec<u8> = line.iter().map(|c| c.ascii).collect();
    assert!(text.starts_with(b"Unprintable characters spotted"));
}

#[test]
fn blank_command_line_reprints_prompt() {
    let mut w = Writer::new();
    w.toggle_cmd(true);
    w.write_byte(b'\n');
    let mut ks = KeyboardState::new();
    // The line holds only the prompt marker: nothing is dispatched, and a
    // fresh prompt appears.
    let outcome = handle_keyboard_input(&mut w, &mut ks, 28);
    assert_eq!(outcome.dispatched, None);
    assert_eq!(w.read_vga_buffer(24, 0).ascii, b'$');
    assert_eq!(w.read_vga_buffer(24, 1).ascii, b'>');
}

#[test]
fn unknown_command_is_reported() {
    let mut w = Writer::new();
    let line = cmd_line("$>frobnicate");
    let outcome = call_function(&mut w, &line);
    assert_eq!(outcome.dispatched, Some(CommandKind::Unknown));
    assert_eq!(outcome.request, HwRequest::Nothing);
    let last = w.get_last_line();
    let text: Vec<u8> = last.iter().map(|c| c.ascii).collect();
    assert!(text.starts_with(b"kfs: frobnicate: command not found"));
}

#[test]
fn color_command_changes_writing_color() {
    let mut w = Writer::new();
    let line = cmd_line("$>color red");
    let outcome = call_function(&mut w, &line);
    assert_eq!(outcome.dispatched, Some(CommandKind::Color));
    w.write_byte(b'X');
    let col = {
        // After the handler's closing newline the column is back at the
        // prompt region; find the written cell.
        let mut found = None;
        for c in 0..80 {
            if w.read_vga_buffer(24, c).ascii == b'X' {
                found = Some(c);
                break;
            }
        }
        found.expect("the byte was written")
    };
    assert_eq!(
        w.read_vga_buffer(24, col).color,
        ColorCode::new(Color::Red, Color::Black)
    );
}

#[test]
fn invalid_color_is_reported_and_color_kept() {
    let mut w = Writer::new();
    let line = cmd_line("$>color vermilion");
    let outcome = call_function(&mut w, &line);
    assert_eq!(outcome.dispatched, Some(CommandKind::Color));
    let last = w.get_last_line();
    let text: Vec<u8> = last.iter().map(|c| c.ascii).collect();
    assert!(text.starts_with(b"Invalid color: vermilion"));
    w.write_byte(b'X');
    let mut found = None;
    for c in 0..80 {
        if w.read_vga_buffer(24, c).ascii == b'X' {
            found = Some(c);
            break;
        }
    }
    let col = found.expect("the byte was written");
    assert_eq!(
        w.read_vga_buffer(24, col).color,
        ColorCode::new(Color::Yellow, Color::Blue)
    );
}

#[test]
fn echo_prints_its_argument() {
    let mut w = Writer::new();
    let line = cmd_line("$>echo hello there");
    let outcome = call_function(&mut w, &line);
    assert_eq!(outcome.dispatched, Some(CommandKind::Echo));
    let last = w.get_last_line();
    let text: Vec<u8> = last.iter().map(|c| c.ascii).collect();
    assert!(text.starts_with(b"hello there"));
}

#[test]
fn stack_command_parses_its_size() {
    let mut w = Writer::new();
    let outcome = call_function(&mut w, &cmd_line("$>stack 64"));
    assert_eq!(outcome.dispatched, Some(CommandKind::Stack));
    assert_eq!(outcome.request, HwRequest::DumpStack(64));
}

#[test]
fn stack_command_rejects_non_numeric_size() {
    let mut w = Writer::new();
    let outcome = call_function(&mut w, &cmd_line("$>stack lots"));
    assert_eq!(outcome.dispatched, Some(CommandKind::Stack));
    assert_eq!(outcome.request, HwRequest::Nothing);
    let last = w.get_last_line();
    let text: Vec<u8> = last.iter().map(|c| c.ascii).collect();
    assert!(text.starts_with(b"Please provide a numeric value"));
}

#[test]
fn stack_command_rejects_oversized_number() {
    let mut w = Writer::new();
    let outcome = call_function(&mut w, &cmd_line("$>stack 99999999999999999999999999"));
    assert_eq!(outcome.request, HwRequest::Nothing);
}

#[test]
fn hardware_commands_yield_requests() {
    let mut w = Writer::new();
    assert_eq!(
        call_function(&mut w, &cmd_line("$>reboot")).request,
        HwRequest::Reboot
    );
    assert_eq!(
        call_function(&mut w, &cmd_line("$>halt")).request,
        HwRequest::Halt
    );
    assert_eq!(
        call_function(&mut w, &cmd_line("$>tetris")).request,
        HwRequest::Tetris
    );
    assert_eq!(
        call_function(&mut w, &cmd_line("$>gdt")).request,
        HwRequest::Gdt
    );
}

#[test]
fn hidden_command_answers() {
    let mut w = Writer::new();
    let outcome = call_function(&mut w, &cmd_line("$>42"));
    assert_eq!(outcome.dispatched, Some(CommandKind::FortyTwo));
    let last = w.get_last_line();
    let text: Vec<u8> = last.iter().map(|c| c.ascii).collect();
    assert!(text.starts_with(b"Outstanding kfs1 project: 42"));
}

#[test]
fn tab_commands_switch_tabs() {
    let mut w = Writer::new();
    let outcome = call_function(&mut w, &cmd_line("$>s"));
    assert_eq!(outcome.dispatched, Some(CommandKind::SwitchTab(0)));
    assert_eq!(w.active_tab(), 1);
    call_function(&mut w, &cmd_line("$>1"));
    assert_eq!(w.active_tab(), 0);
    call_function(&mut w, &cmd_line("$>3"));
    assert_eq!(w.active_tab(), 2);
}

#[test]
fn clear_command_resets_history() {
    let mut w = Writer::new();
    for _ in 0..5 {
        w.write_byte(b'\n');
    }
    let outcome = call_function(&mut w, &cmd_line("$>clear"));
    assert_eq!(outcome.dispatched, Some(CommandKind::Clear));
    // clear leaves one blank line, and the handler's closing newline
    // commits one more.
    assert_eq!(w.history_len(), 2);
}

#[test]
fn atousize_parses_decimal_only() {
    assert_eq!(atousize(&Vec::from(&b"0"[..])), Some(0));
    assert_eq!(atousize(&Vec::from(&b"123"[..])), Some(123));
    assert_eq!(atousize(&Vec::from(&b"18446744073709551615"[..])), Some(usize::MAX));
    assert_eq!(atousize(&Vec::from(&b"18446744073709551616"[..])), None);
    assert_eq!(atousize(&Vec::from(&b"12a"[..])), None);
    assert_eq!(atousize(&Vec::from(&b"-5"[..])), None);
}

#[test]
fn welcome_screen_ends_in_command_mode() {
    let mut w = Writer::new();
    print_welcome_screen(&mut w);
    assert_eq!(w.read_vga_buffer(24, 0).ascii, b'$');
    assert_eq!(w.read_vga_buffer(24, 1).ascii, b'>');
    w.write_byte(b'Z');
    assert_eq!(w.read_vga_buffer(24, 2).ascii, b'Z');
    assert_eq!(
        w.read_vga_buffer(24, 2).color,
        ColorCode::new(Color::White, Color::Black)
    );
}

#[test]
fn navigation_scan_codes_drive_the_writer() {
    let mut w = Writer::new();
    let mut ks = KeyboardState::new();
    for _ in 0..50 {
        w.write_byte(b'\n');
    }
    for _ in 0..30 {
        let outcome = handle_keyboard_input(&mut w, &mut ks, 72);
        assert_eq!(outcome.dispatched, None);
    }
    assert_eq!(w.scroll_offset(), 27);
    handle_keyboard_input(&mut w, &mut ks, 80);
    assert_eq!(w.scroll_offset(), 26);
}

#[test]
fn shifted_typing_reaches_the_frame() {
    // Shift held while typing the letter key for q puts 'Q' on screen.
    let mut w = Writer::new();
    let mut ks = KeyboardState::new();
    handle_keyboard_input(&mut w, &mut ks, 42);
    handle_keyboard_input(&mut w, &mut ks, 16);
    handle_keyboard_input(&mut w, &mut ks, 170);
    handle_keyboard_input(&mut w, &mut ks, 16);
    assert_eq!(w.read_vga_buffer(24, 0).ascii, b'Q');
    assert_eq!(w.read_vga_buffer(24, 1).ascii, b'q');
}
