//! The command dispatcher: on line commit the most recent committed line is
//! validated as UTF-8, checked for the prompt marker, tokenized, and the
//! first word selects a handler. Handlers print through the writer; work
//! that needs the hardware (a reboot, a halt, a raw memory dump) is handed
//! back to the caller as a request.

use vstd::prelude::*;

verus! {

use vstd::string::StringSliceAdditionalSpecFns;
use vstd::utf8::valid_utf8;
use crate::color::{Color, ColorCode, attr};
use crate::keyboard::{KeyAction, KeyboardState, decode, ks_next, shifted_active, table_byte};
use crate::ring::{ring_clear, ring_last_slot};
use crate::writer::{TermModel, Writer, lemma_write_bytes_append, spec_move_cursor, spec_scroll_down, spec_scroll_up, spec_switch_tab, spec_write_bytes, spec_write_code};

/// Whether a byte is ASCII whitespace, as the shell's trimming and word
/// splitting treat it.
pub open spec fn is_ws(b: u8) -> bool {
    b == 32 || b == 9 || b == 10 || b == 11 || b == 12 || b == 13
}

/// The first index at or after `from` holding a non-whitespace byte, or
/// the length when none follows.
pub open spec fn ws_end(s: Seq<u8>, from: int) -> int
    decreases s.len() - from,
{
    if from < 0 || from >= s.len() || !is_ws(s[from]) {
        from
    } else {
        ws_end(s, from + 1)
    }
}

/// The first index at or after `from` holding a whitespace byte, or the
/// length when none follows: the end of the word starting at `from`.
pub open spec fn word_end(s: Seq<u8>, from: int) -> int
    decreases s.len() - from,
{
    if from < 0 || from >= s.len() || is_ws(s[from]) {
        from
    } else {
        word_end(s, from + 1)
    }
}

/// Whether `pat` occurs in `s` at index `i`.
pub open spec fn matches_at(s: Seq<u8>, pat: Seq<u8>, i: int) -> bool {
    0 <= i && i + pat.len() <= s.len() && s.subrange(i, i + pat.len()) == pat
}

/// The smallest index at which `pat` occurs in `s`, or -1 when it never
/// does.
pub open spec fn first_match(s: Seq<u8>, pat: Seq<u8>, from: int) -> int
    decreases s.len() - from,
{
    if from < 0 || pat.len() <= 0 || from + pat.len() > s.len() {
        -1
    } else if s.subrange(from, from + pat.len()) == pat {
        from
    } else {
        first_match(s, pat, from + 1)
    }
}

/// `first_match` finds exactly the first occurrence: its result matches,
/// and nothing before it does.
pub proof fn lemma_first_match(s: Seq<u8>, pat: Seq<u8>, from: int)
    requires
        0 <= from,
        pat.len() >= 1,
    ensures
        first_match(s, pat, from) == -1 ==> forall|j: int| from <= j ==> !matches_at(s, pat, j),
        first_match(s, pat, from) != -1 ==> matches_at(s, pat, first_match(s, pat, from))
            && from <= first_match(s, pat, from) && forall|j: int|
            from <= j < first_match(s, pat, from) ==> !matches_at(s, pat, j),
    decreases s.len() - from,
{
    if pat.len() <= 0 || from + pat.len() > s.len() {
    } else if s.subrange(from, from + pat.len()) == pat {
    } else {
        lemma_first_match(s, pat, from + 1);
    }
}

/// The index at or after `from` where the first whitespace-free word ends;
/// returns the index just past the word that starts at `ws_end`.
fn skip_ws(v: &Vec<u8>, from: usize) -> (i: usize)
    requires
        from <= v@.len(),
    ensures
        i == ws_end(v@, from as int),
        from <= i <= v@.len(),
        i < v@.len() ==> !is_ws(v@[i as int]),
{
    let mut i = from;
    while i < v.len() && is_ws_byte(v[i])
        invariant
            from <= i <= v@.len(),
            ws_end(v@, from as int) == ws_end(v@, i as int),
        decreases v@.len() - i,
    {
        i += 1;
    }
    i
}

/// The end of the word starting at `from`.
fn find_word_end(v: &Vec<u8>, from: usize) -> (i: usize)
    requires
        from <= v@.len(),
    ensures
        i == word_end(v@, from as int),
        from <= i <= v@.len(),
{
    let mut i = from;
    while i < v.len() && !is_ws_byte(v[i])
        invariant
            from <= i <= v@.len(),
            word_end(v@, from as int) == word_end(v@, i as int),
        decreases v@.len() - i,
    {
        i += 1;
    }
    i
}

fn is_ws_byte(b: u8) -> (r: bool)
    ensures
        r == is_ws(b),
{
    b == 32 || b == 9 || b == 10 || b == 11 || b == 12 || b == 13
}

/// Finds the first occurrence of `pat` in `v`, searching from the start.
#[verifier::loop_isolation(false)]
fn find_sub(v: &Vec<u8>, pat: &Vec<u8>) -> (r: Option<usize>)
    ensures
        r matches Some(i) ==> i == first_match(v@, pat@, 0) && pat@.len() >= 1,
        r is None ==> first_match(v@, pat@, 0) == -1,
{
    let n = v.len();
    let m = pat.len();
    if m == 0 {
        return None;
    }
    if m > n {
        proof {
            lemma_first_match_none_short(v@, pat@, 0);
        }
        return None;
    }
    let mut i: usize = 0;
    while i <= n - m
        invariant
            0 <= i <= n - m + 1,
            first_match(v@, pat@, 0) == first_match(v@, pat@, i as int),
        decreases n - i,
    {
        let mut j: usize = 0;
        let mut ok = true;
        proof {
            assert(v@.subrange(i as int, i as int) =~= pat@.subrange(0, 0));
        }
        while j < m
            invariant
                0 <= j <= m,
                i + m <= n,
                ok == (v@.subrange(i as int, i + j) == pat@.subrange(0, j as int)),
            decreases m - j,
        {
            proof {
                assert(v@.subrange(i as int, i + j + 1) == v@.subrange(i as int, i + j).push(
                    v@[i + j],
                )) by {
                    assert(v@.subrange(i as int, i + j + 1) =~= v@.subrange(i as int, i + j).push(
                        v@[i + j],
                    ));
                }
                assert(pat@.subrange(0, j + 1) == pat@.subrange(0, j as int).push(pat@[j as int]))
                    by {
                    assert(pat@.subrange(0, j + 1) =~= pat@.subrange(0, j as int).push(
                        pat@[j as int],
                    ));
                }
                if ok && v@[i + j] == pat@[j as int] {
                    assert(v@.subrange(i as int, i + j + 1) == pat@.subrange(0, j + 1));
                } else {
                    if v@.subrange(i as int, i + j + 1) == pat@.subrange(0, j + 1) {
                        assert(v@.subrange(i as int, i + j + 1).drop_last() == v@.subrange(
                            i as int,
                            i + j,
                        ));
                        assert(pat@.subrange(0, j + 1).drop_last() == pat@.subrange(0, j as int));
                        assert(v@.subrange(i as int, i + j + 1).last() == v@[i + j]);
                        assert(false);
                    }
                }
            }
            if v[i + j] != pat[j] {
                ok = false;
                proof {
                    assert(v@.subrange(i as int, i + j + 1) != pat@.subrange(0, j + 1));
                }
            }
            j += 1;
        }
        proof {
            assert(pat@.subrange(0, m as int) =~= pat@);
        }
        if ok {
            proof {
                assert(v@.subrange(i as int, i + m) == pat@);
                assert(first_match(v@, pat@, i as int) == i);
            }
            return Some(i);
        }
        proof {
            assert(v@.subrange(i as int, i + m) != pat@);
            assert(first_match(v@, pat@, i as int) == first_match(v@, pat@, i + 1));
        }
        i += 1;
    }
    proof {
        lemma_first_match_none_short(v@, pat@, i as int);
    }
    None
}

/// Past the last possible start, no occurrence exists.
proof fn lemma_first_match_none_short(s: Seq<u8>, pat: Seq<u8>, from: int)
    requires
        0 <= from,
        from + pat.len() > s.len(),
    ensures
        first_match(s, pat, from) == -1,
{
}

/// The end of a word never lies before its start nor past the line.
pub proof fn lemma_word_end_bounds(s: Seq<u8>, from: int)
    requires
        0 <= from <= s.len(),
    ensures
        from <= word_end(s, from) <= s.len(),
    decreases s.len() - from,
{
    if from < s.len() && !is_ws(s[from]) {
        lemma_word_end_bounds(s, from + 1);
    }
}

/// A copy of a byte range of a buffer.
fn copy_range(v: &Vec<u8>, from: usize, to: usize) -> (r: Vec<u8>)
    requires
        from <= to <= v@.len(),
    ensures
        r@ == v@.subrange(from as int, to as int),
{
    let mut r: Vec<u8> = Vec::new();
    let mut i = from;
    while i < to
        invariant
            from <= i <= to <= v@.len(),
            r@.len() == i - from,
            forall|k: int| 0 <= k < i - from ==> r@[k] == v@[from + k],
        decreases to - i,
    {
        r.push(v[i]);
        i += 1;
    }
    proof {
        assert(r@ =~= v@.subrange(from as int, to as int));
    }
    r
}

/// Whether a token equals the bytes of a command word.
fn token_is(tok: &Vec<u8>, s: &str) -> (r: bool)
    ensures
        r == (tok@ == s.spec_bytes()),
{
    let sb = s.as_bytes();
    if tok.len() != sb.len() {
        proof {
            assert(tok@ != s.spec_bytes());
        }
        return false;
    }
    let n = tok.len();
    let mut i: usize = 0;
    while i < n
        invariant
            0 <= i <= n,
            n == tok@.len() == sb@.len(),
            sb@ == s.spec_bytes(),
            forall|k: int| 0 <= k < i ==> tok@[k] == sb@[k],
        decreases n - i,
    {
        if tok[i] != sb[i] {
            proof {
                assert(tok@ != s.spec_bytes());
            }
            return false;
        }
        i += 1;
    }
    proof {
        assert(tok@ =~= s.spec_bytes());
    }
    true
}

/// Whether all bytes of a sequence are decimal digits.
pub open spec fn all_digits(s: Seq<u8>) -> bool {
    forall|i: int| 0 <= i < s.len() ==> 48 <= #[trigger] s[i] <= 57
}

/// The numeric value of a digit string.
pub open spec fn digits_value(s: Seq<u8>) -> int
    decreases s.len(),
{
    if s.len() <= 0 {
        0
    } else {
        digits_value(s.drop_last()) * 10 + (s.last() - 48)
    }
}

/// The value of a digit string never shrinks as digits are appended.
proof fn lemma_digits_value_monotone(s: Seq<u8>, n: int)
    requires
        all_digits(s),
        0 <= n <= s.len(),
    ensures
        digits_value(s) >= digits_value(s.take(n)),
        digits_value(s) >= 0,
    decreases s.len() - n,
{
    if s.len() == 0 {
    } else if n == s.len() {
        assert(s.take(n) =~= s);
        lemma_digits_value_nonneg(s);
    } else {
        lemma_digits_value_monotone(s, n + 1);
        assert(s.take(n + 1).drop_last() =~= s.take(n));
        lemma_digits_value_nonneg(s.take(n));
    }
}

proof fn lemma_digits_value_nonneg(s: Seq<u8>)
    requires
        all_digits(s),
    ensures
        digits_value(s) >= 0,
    decreases s.len(),
{
    if s.len() > 0 {
        assert(all_digits(s.drop_last()));
        lemma_digits_value_nonneg(s.drop_last());
    }
}

/// Parses a decimal byte string. The result exists exactly when every byte
/// is a digit and the value fits the machine word; an empty string parses
/// as zero.
pub fn atousize(s: &Vec<u8>) -> (r: Option<usize>)
    ensures
        (all_digits(s@) && digits_value(s@) <= usize::MAX) ==> r == Some(
            digits_value(s@) as usize,
        ),
        !(all_digits(s@) && digits_value(s@) <= usize::MAX) ==> r is None,
{
    let mut result: usize = 0;
    let n = s.len();
    let mut i: usize = 0;
    while i < n
        invariant
            0 <= i <= n,
            n == s@.len(),
            all_digits(s@.take(i as int)),
            result == digits_value(s@.take(i as int)),
        decreases n - i,
    {
        let c = s[i];
        if c < 48 || c > 57 {
            proof {
                assert(!all_digits(s@));
            }
            return None;
        }
        let digit = c - 48;
        proof {
            assert(s@.take(i + 1).drop_last() =~= s@.take(i as int));
            assert(s@.take(i + 1).last() == c);
        }
        let next = match result.checked_mul(10) {
            Some(t) => {
                match t.checked_add(digit as usize) {
                    Some(u) => u,
                    None => {
                        proof {
                            if all_digits(s@) {
                                lemma_digits_value_monotone(s@, i + 1);
                            }
                        }
                        return None;
                    },
                }
            },
            None => {
                proof {
                    assert(digits_value(s@.take(i + 1)) > usize::MAX);
                    if all_digits(s@) {
                        lemma_digits_value_monotone(s@, i + 1);
                    }
                }
                return None;
            },
        };
        result = next;
        i += 1;
    }
    proof {
        assert(s@.take(n as int) =~= s@);
    }
    Some(result)
}

/// Relies on core::str::from_utf8: it returns Ok exactly when the byte
/// sequence is valid UTF-8.
#[verifier::external_body]
fn utf8_check(v: &Vec<u8>) -> (r: bool)
    ensures
        r == valid_utf8(v@),
{
    core::str::from_utf8(v.as_slice()).is_ok()
}

/// A command recognized by the dispatcher, selected by the first word of a
/// committed command line.
#[derive(Debug, Clone, Copy, PartialEq, Eq, Structural)]
pub enum CommandKind {
    Color,
    Echo,
    Stack,
    Help,
    FortyTwo,
    Reboot,
    Halt,
    Tetris,
    Clear,
    Gdt,
    SwitchTab(u8),
    Unknown,
}

/// Work that needs the hardware and is handed back to the caller: the
/// dispatcher itself never touches a port or raw memory.
#[derive(Debug, Clone, Copy, PartialEq, Eq, Structural)]
pub enum HwRequest {
    Nothing,
    Reboot,
    Halt,
    Tetris,
    Gdt,
    DumpStack(usize),
}

/// What one scan code led to: the command dispatched on a committed line,
/// if any, and any hardware work requested.
#[derive(Debug, Clone, Copy, PartialEq, Eq, Structural)]
pub struct KeyOutcome {
    pub dispatched: Option<CommandKind>,
    pub request: HwRequest,
}

/// The color a name on the command line selects.
pub open spec fn spec_color_name(word: Seq<u8>) -> Option<Color> {
    if word == "blue".spec_bytes() {
        Some(Color::Blue)
    } else if word == "green".spec_bytes() {
        Some(Color::Green)
    } else if word == "cyan".spec_bytes() {
        Some(Color::Cyan)
    } else if word == "red".spec_bytes() {
        Some(Color::Red)
    } else if word == "magenta".spec_bytes() {
        Some(Color::Magenta)
    } else if word == "brown".spec_bytes() {
        Some(Color::Brown)
    } else if word == "lightgray".spec_bytes() {
        Some(Color::LightGray)
    } else if word == "darkgray".spec_bytes() {
        Some(Color::DarkGray)
    } else if word == "lightblue".spec_bytes() {
        Some(Color::LightBlue)
    } else if word == "lightgreen".spec_bytes() {
        Some(Color::LightGreen)
    } else if word == "lightcyan".spec_bytes() {
        Some(Color::LightCyan)
    } else if word == "lightred".spec_bytes() {
        Some(Color::LightRed)
    } else if word == "pink".spec_bytes() {
        Some(Color::Pink)
    } else if word == "yellow".spec_bytes() {
        Some(Color::Yellow)
    } else if word == "white".spec_bytes() {
        Some(Color::White)
    } else {
        None
    }
}

/// The command a first token selects.
pub open spec fn spec_command_of(tok: Seq<u8>) -> CommandKind {
    if tok == "color".spec_bytes() {
        CommandKind::Color
    } else if tok == "echo".spec_bytes() {
        CommandKind::Echo
    } else if tok == "stack".spec_bytes() {
        CommandKind::Stack
    } else if tok == "help".spec_bytes() {
        CommandKind::Help
    } else if tok == "42".spec_bytes() {
        CommandKind::FortyTwo
    } else if tok == "reboot".spec_bytes() {
        CommandKind::Reboot
    } else if tok == "halt".spec_bytes() {
        CommandKind::Halt
    } else if tok == "tetris".spec_bytes() {
        CommandKind::Tetris
    } else if tok == "clear".spec_bytes() {
        CommandKind::Clear
    } else if tok == "gdt".spec_bytes() {
        CommandKind::Gdt
    } else if tok == "s".spec_bytes() {
        CommandKind::SwitchTab(0)
    } else if tok == "1".spec_bytes() {
        CommandKind::SwitchTab(1)
    } else if tok == "2".spec_bytes() {
        CommandKind::SwitchTab(2)
    } else if tok == "3".spec_bytes() {
        CommandKind::SwitchTab(3)
    } else {
        CommandKind::Unknown
    }
}

/// The argument word after the first occurrence of `pat`: leading
/// whitespace skipped, ending at the next whitespace.
pub open spec fn spec_arg_word(line: Seq<u8>, pat: Seq<u8>) -> Seq<u8> {
    let fm = first_match(line, pat, 0);
    let b = ws_end(line, fm + pat.len());
    line.subrange(b, word_end(line, b))
}

/// The color command: with no argument it prints the usage text; with a
/// known color name it makes that color (on black) the writing color and
/// confirms; with anything else it reports the invalid name. The line is
/// ignored when the pattern is absent.
pub open spec fn spec_ft_color(m: TermModel, line: Seq<u8>) -> TermModel {
    if first_match(line, "color ".spec_bytes(), 0) == -1 {
        m
    } else {
        let word = spec_arg_word(line, "color ".spec_bytes());
        if word.len() == 0 {
            let mu = spec_write_bytes(
                m,
                "Please provide a color among those :\n    blue, green, cyan, red, magenta, brown, lightgray\n    darkgray, lightblue, lightgreen, lightcyan, lightcyan\n".spec_bytes(),
            );
            spec_write_bytes(
                TermModel { cmd: true, ..mu },
                "    lightred, pink, yellow or white.\n".spec_bytes(),
            )
        } else {
            match spec_color_name(word) {
                Some(c) => spec_write_bytes(
                    TermModel {
                        cmd: true,
                        ..TermModel { color: ColorCode(attr(c, Color::Black)), ..m }
                    },
                    "Now writing in ".spec_bytes() + word + "\n".spec_bytes(),
                ),
                None => spec_write_bytes(
                    TermModel { cmd: true, ..m },
                    "Invalid color: ".spec_bytes() + word + "\n".spec_bytes(),
                ),
            }
        }
    }
}

/// The echo command: everything after the pattern, leading whitespace
/// trimmed, is printed back; when the pattern is absent the whole line is.
pub open spec fn spec_ft_echo(m: TermModel, line: Seq<u8>) -> TermModel {
    let m1 = TermModel { cmd: true, ..m };
    let fm = first_match(line, "echo ".spec_bytes(), 0);
    if fm == -1 {
        spec_write_bytes(m1, line + "\n".spec_bytes())
    } else {
        let b = ws_end(line, fm + "echo ".spec_bytes().len());
        spec_write_bytes(m1, line.subrange(b, line.len() as int) + "\n".spec_bytes())
    }
}

/// The stack command's effect on the writer: a missing or non-numeric size
/// is reported; a numeric one leaves the writer alone, since the dump
/// itself is hardware work handed back to the caller.
pub open spec fn spec_ft_stack(m: TermModel, line: Seq<u8>) -> TermModel {
    if first_match(line, "stack ".spec_bytes(), 0) == -1 {
        m
    } else {
        let word = spec_arg_word(line, "stack ".spec_bytes());
        if word.len() > 0 && all_digits(word) && digits_value(word) <= usize::MAX {
            m
        } else {
            spec_write_bytes(
                TermModel { cmd: true, ..m },
                "Please provide a numeric value corresponding to the size you want to read.\n".spec_bytes(),
            )
        }
    }
}

/// The dump request the stack command yields: the parsed size, when the
/// argument word is numeric and fits the machine word.
pub open spec fn spec_stack_request(line: Seq<u8>) -> HwRequest {
    if first_match(line, "stack ".spec_bytes(), 0) == -1 {
        HwRequest::Nothing
    } else {
        let word = spec_arg_word(line, "stack ".spec_bytes());
        if word.len() > 0 && all_digits(word) && digits_value(word) <= usize::MAX {
            HwRequest::DumpStack(digits_value(word) as usize)
        } else {
            HwRequest::Nothing
        }
    }
}

/// The help command: the command list, then the closing line committed as
/// a command-mode prompt.
pub open spec fn spec_ft_help(m: TermModel) -> TermModel {
    let m1 = spec_write_bytes(
        m,
        "Welcome to our useless kernel !!!\nIt can't do much for now and probably never will\nBut here are a few commands you can use: \n   \nhelp : This is what you're seeing right now !\necho : Prints something on the screen, WOW !\nstack   : Prints the stack\nreboot  : Reboots the machine\nhalt    : Halts the CPU (Why would you do that?)\ncolor   : Changes the writing color <...arg : Color>\n42      : Prints 42 for kfs1's subject\nclear   : Clears the screen\ngdt     : Prints the Global Descriptor Table's memory space\ns/1/2/3 : Switch tab\n".spec_bytes(),
    );
    spec_write_bytes(
        TermModel { cmd: true, ..m1 },
        "There might be other hidden features...\n".spec_bytes(),
    )
}

/// The clear command: the active tab's scrollback collapses to one blank
/// line and a fresh prompt is committed.
pub open spec fn spec_ft_clear(m: TermModel) -> TermModel {
    let cleared = TermModel {
        rings: m.rings.update(m.tab, ring_clear(m.rings[m.tab], m.color)),
        ..m
    };
    spec_write_bytes(TermModel { cmd: true, ..cleared }, "\n".spec_bytes())
}

/// The hidden command: a one-line answer under a fresh prompt.
pub open spec fn spec_ft_42(m: TermModel) -> TermModel {
    spec_write_bytes(
        TermModel { cmd: true, ..m },
        "Outstanding kfs1 project: 42\n".spec_bytes(),
    )
}

/// A tab-switch command: the tab switches, then a fresh prompt is
/// committed on the new tab.
pub open spec fn spec_ft_switch_tab(m: TermModel, n: int) -> TermModel {
    spec_write_bytes(
        TermModel { cmd: true, ..spec_switch_tab(m, n) },
        "\n".spec_bytes(),
    )
}

/// The unknown-command report: the token is echoed inside the message.
pub open spec fn spec_ft_unknown(m: TermModel, tok: Seq<u8>) -> TermModel {
    spec_write_bytes(
        TermModel { cmd: true, ..m },
        "kfs: ".spec_bytes() + tok + ": command not found\n".spec_bytes(),
    )
}

/// The first token of a command line, after the two prompt columns.
pub open spec fn spec_line_token(line: Seq<u8>) -> Seq<u8> {
    let b = ws_end(line, 2);
    line.subrange(b, word_end(line, b))
}

/// The dispatcher's effect on the writer: command mode ends, and the
/// handler selected by the first token runs.
pub open spec fn spec_call_function(m: TermModel, line: Seq<u8>) -> TermModel {
    let m0 = TermModel { cmd: false, ..m };
    let tok = spec_line_token(line);
    if tok.len() == 0 {
        m0
    } else {
        match spec_command_of(tok) {
            CommandKind::Color => spec_ft_color(m0, line),
            CommandKind::Echo => spec_ft_echo(m0, line),
            CommandKind::Stack => spec_ft_stack(m0, line),
            CommandKind::Help => spec_ft_help(m0),
            CommandKind::FortyTwo => spec_ft_42(m0),
            CommandKind::Reboot => spec_write_bytes(m0, "rebooting ... \n\n".spec_bytes()),
            CommandKind::Halt => m0,
            CommandKind::Tetris => m0,
            CommandKind::Clear => spec_ft_clear(m0),
            CommandKind::Gdt => spec_write_bytes(
                m0,
                "Global Descriptor Table (located at 0x800)\n".spec_bytes(),
            ),
            CommandKind::SwitchTab(n) => spec_ft_switch_tab(m0, n as int),
            CommandKind::Unknown => spec_ft_unknown(m0, tok),
        }
    }
}

/// The hardware request a dispatched line yields.
pub open spec fn spec_request_of(line: Seq<u8>) -> HwRequest {
    let tok = spec_line_token(line);
    if tok.len() == 0 {
        HwRequest::Nothing
    } else {
        match spec_command_of(tok) {
            CommandKind::Stack => spec_stack_request(line),
            CommandKind::Reboot => HwRequest::Reboot,
            CommandKind::Halt => HwRequest::Halt,
            CommandKind::Tetris => HwRequest::Tetris,
            CommandKind::Gdt => HwRequest::Gdt,
            _ => HwRequest::Nothing,
        }
    }
}

fn str_to_vec(s: &str) -> (r: Vec<u8>)
    ensures
        r@ == s.spec_bytes(),
{
    let sb = s.as_bytes();
    let n = sb.len();
    let mut r: Vec<u8> = Vec::new();
    let mut i: usize = 0;
    while i < n
        invariant
            0 <= i <= n,
            n == sb@.len(),
            sb@ == s.spec_bytes(),
            r@.len() == i,
            forall|k: int| 0 <= k < i ==> r@[k] == sb@[k],
        decreases n - i,
    {
        r.push(sb[i]);
        i += 1;
    }
    proof {
        assert(r@ =~= s.spec_bytes());
    }
    r
}

fn color_name_of(word: &Vec<u8>) -> (r: Option<Color>)
    ensures
        r == spec_color_name(word@),
{
    if token_is(word, "blue") {
        Some(Color::Blue)
    } else if token_is(word, "green") {
        Some(Color::Green)
    } else if token_is(word, "cyan") {
        Some(Color::Cyan)
    } else if token_is(word, "red") {
        Some(Color::Red)
    } else if token_is(word, "magenta") {
        Some(Color::Magenta)
    } else if token_is(word, "brown") {
        Some(Color::Brown)
    } else if token_is(word, "lightgray") {
        Some(Color::LightGray)
    } else if token_is(word, "darkgray") {
        Some(Color::DarkGray)
    } else if token_is(word, "lightblue") {
        Some(Color::LightBlue)
    } else if token_is(word, "lightgreen") {
        Some(Color::LightGreen)
    } else if token_is(word, "lightcyan") {
        Some(Color::LightCyan)
    } else if token_is(word, "lightred") {
        Some(Color::LightRed)
    } else if token_is(word, "pink") {
        Some(Color::Pink)
    } else if token_is(word, "yellow") {
        Some(Color::Yellow)
    } else if token_is(word, "white") {
        Some(Color::White)
    } else {
        None
    }
}

fn kind_of_token(tok: &Vec<u8>) -> (k: CommandKind)
    ensures
        k == spec_command_of(tok@),
{
    if token_is(tok, "color") {
        CommandKind::Color
    } else if token_is(tok, "echo") {
        CommandKind::Echo
    } else if token_is(tok, "stack") {
        CommandKind::Stack
    } else if token_is(tok, "help") {
        CommandKind::Help
    } else if token_is(tok, "42") {
        CommandKind::FortyTwo
    } else if token_is(tok, "reboot") {
        CommandKind::Reboot
    } else if token_is(tok, "halt") {
        CommandKind::Halt
    } else if token_is(tok, "tetris") {
        CommandKind::Tetris
    } else if token_is(tok, "clear") {
        CommandKind::Clear
    } else if token_is(tok, "gdt") {
        CommandKind::Gdt
    } else if token_is(tok, "s") {
        CommandKind::SwitchTab(0)
    } else if token_is(tok, "1") {
        CommandKind::SwitchTab(1)
    } else if token_is(tok, "2") {
        CommandKind::SwitchTab(2)
    } else if token_is(tok, "3") {
        CommandKind::SwitchTab(3)
    } else {
        CommandKind::Unknown
    }
}

/// The help command: prints the command list, then the closing line as a
/// fresh command prompt.
pub fn ft_help(w: &mut Writer)
    requires
        old(w).wf(),
    ensures
        final(w).wf(),
        final(w)@ == spec_ft_help(old(w)@),
{
    w.write_string(
        "Welcome to our useless kernel !!!\nIt can't do much for now and probably never will\nBut here are a few commands you can use: \n   \nhelp : This is what you're seeing right now !\necho : Prints something on the screen, WOW !\nstack   : Prints the stack\nreboot  : Reboots the machine\nhalt    : Halts the CPU (Why would you do that?)\ncolor   : Changes the writing color <...arg : Color>\n42      : Prints 42 for kfs1's subject\nclear   : Clears the screen\ngdt     : Prints the Global Descriptor Table's memory space\ns/1/2/3 : Switch tab\n",
    );
    w.toggle_cmd(true);
    w.write_string("There might be other hidden features...\n");
}

/// The clear command: resets the active tab's scrollback and commits a
/// fresh prompt.
pub fn ft_clear(w: &mut Writer)
    requires
        old(w).wf(),
    ensures
        final(w).wf(),
        final(w)@ == spec_ft_clear(old(w)@),
{
    w.clear_terminal();
    w.toggle_cmd(true);
    w.write_string("\n");
}

/// The hidden command.
pub fn ft_42(w: &mut Writer)
    requires
        old(w).wf(),
    ensures
        final(w).wf(),
        final(w)@ == spec_ft_42(old(w)@),
{
    w.toggle_cmd(true);
    w.write_string("Outstanding kfs1 project: 42\n");
}

/// A tab-switch command.
pub fn ft_switch_tab(w: &mut Writer, n: usize)
    requires
        old(w).wf(),
        n <= 3,
    ensures
        final(w).wf(),
        final(w)@ == spec_ft_switch_tab(old(w)@, n as int),
{
    w.switch_tab(n);
    w.toggle_cmd(true);
    w.write_string("\n");
}

/// The color command: parses the color name after the command word and
/// makes it the writing color, or reports the usage or the invalid name.
pub fn ft_color(w: &mut Writer, line: &Vec<u8>)
    requires
        old(w).wf(),
    ensures
        final(w).wf(),
        final(w)@ == spec_ft_color(old(w)@, line@),
{
    let len = line.len();
    let pat = str_to_vec("color ");
    match find_sub(line, &pat) {
        Option::None => {},
        Option::Some(i) => {
            proof {
                lemma_first_match(line@, pat@, 0);
            }
            let after = i + pat.len();
            let b = skip_ws(line, after);
            let e = find_word_end(line, b);
            if e == b {
                w.write_string(
                    "Please provide a color among those :\n    blue, green, cyan, red, magenta, brown, lightgray\n    darkgray, lightblue, lightgreen, lightcyan, lightcyan\n",
                );
                w.toggle_cmd(true);
                w.write_string("    lightred, pink, yellow or white.\n");
            } else {
                let word = copy_range(line, b, e);
                match color_name_of(&word) {
                    Option::Some(c) => {
                        w.change_color(c, Color::Black);
                        w.toggle_cmd(true);
                        let ghost m2 = w@;
                        w.write_string("Now writing in ");
                        w.write_bytes(&word);
                        w.write_string("\n");
                        proof {
                            lemma_write_bytes_append(m2, "Now writing in ".spec_bytes(), word@);
                            lemma_write_bytes_append(
                                m2,
                                "Now writing in ".spec_bytes() + word@,
                                "\n".spec_bytes(),
                            );
                        }
                    },
                    Option::None => {
                        w.toggle_cmd(true);
                        let ghost m2 = w@;
                        w.write_string("Invalid color: ");
                        w.write_bytes(&word);
                        w.write_string("\n");
                        proof {
                            lemma_write_bytes_append(m2, "Invalid color: ".spec_bytes(), word@);
                            lemma_write_bytes_append(
                                m2,
                                "Invalid color: ".spec_bytes() + word@,
                                "\n".spec_bytes(),
                            );
                        }
                    },
                }
            }
        },
    }
}

/// The echo command: prints back everything after the command word,
/// leading whitespace trimmed; with no argument region, the whole line.
pub fn ft_echo(w: &mut Writer, line: &Vec<u8>)
    requires
        old(w).wf(),
    ensures
        final(w).wf(),
        final(w)@ == spec_ft_echo(old(w)@, line@),
{
    w.toggle_cmd(true);
    let ghost m1 = w@;
    let len = line.len();
    let pat = str_to_vec("echo ");
    match find_sub(line, &pat) {
        Option::Some(i) => {
            proof {
                lemma_first_match(line@, pat@, 0);
            }
            let after = i + pat.len();
            let b = skip_ws(line, after);
            w.write_bytes_range(line, b, len);
            w.write_string("\n");
            proof {
                lemma_write_bytes_append(
                    m1,
                    line@.subrange(b as int, len as int),
                    "\n".spec_bytes(),
                );
            }
        },
        Option::None => {
            w.write_bytes(line);
            w.write_string("\n");
            proof {
                lemma_write_bytes_append(m1, line@, "\n".spec_bytes());
            }
        },
    }
}

fn stack_usage(w: &mut Writer)
    requires
        old(w).wf(),
    ensures
        final(w).wf(),
        final(w)@ == spec_write_bytes(
            (TermModel { cmd: true, ..old(w)@ }),
            "Please provide a numeric value corresponding to the size you want to read.\n".spec_bytes(),
        ),
{
    w.toggle_cmd(true);
    w.write_string("Please provide a numeric value corresponding to the size you want to read.\n");
}

/// The stack command: parses the byte count after the command word and
/// yields the dump request; a missing or non-numeric count is reported
/// and nothing is requested.
pub fn ft_dump_stack(w: &mut Writer, line: &Vec<u8>) -> (r: HwRequest)
    requires
        old(w).wf(),
    ensures
        final(w).wf(),
        final(w)@ == spec_ft_stack(old(w)@, line@),
        r == spec_stack_request(line@),
{
    let len = line.len();
    let pat = str_to_vec("stack ");
    match find_sub(line, &pat) {
        Option::None => HwRequest::Nothing,
        Option::Some(i) => {
            proof {
                lemma_first_match(line@, pat@, 0);
            }
            let after = i + pat.len();
            let b = skip_ws(line, after);
            let e = find_word_end(line, b);
            if e == b {
                stack_usage(w);
                HwRequest::Nothing
            } else {
                let word = copy_range(line, b, e);
                match atousize(&word) {
                    Option::Some(num) => HwRequest::DumpStack(num),
                    Option::None => {
                        stack_usage(w);
                        HwRequest::Nothing
                    },
                }
            }
        },
    }
}

/// Dispatches a committed command line: command mode ends, the first word
/// selects a handler, and an unknown word is reported. Returns what was
/// dispatched and any hardware work the command asks for.
pub fn call_function(w: &mut Writer, line: &Vec<u8>) -> (r: KeyOutcome)
    requires
        old(w).wf(),
        line@.len() >= 2,
    ensures
        final(w).wf(),
        final(w)@ == spec_call_function(old(w)@, line@),
        r.dispatched == (if spec_line_token(line@).len() == 0 {
            Option::<CommandKind>::None
        } else {
            Option::Some(spec_command_of(spec_line_token(line@)))
        }),
        r.request == spec_request_of(line@),
{
    w.toggle_cmd(false);
    let b = skip_ws(line, 2);
    let e = find_word_end(line, b);
    if e == b {
        return KeyOutcome { dispatched: Option::None, request: HwRequest::Nothing };
    }
    let tok = copy_range(line, b, e);
    let k = kind_of_token(&tok);
    let mut request = HwRequest::Nothing;
    match k {
        CommandKind::Color => {
            ft_color(w, line);
        },
        CommandKind::Echo => {
            ft_echo(w, line);
        },
        CommandKind::Stack => {
            request = ft_dump_stack(w, line);
        },
        CommandKind::Help => {
            ft_help(w);
        },
        CommandKind::FortyTwo => {
            ft_42(w);
        },
        CommandKind::Reboot => {
            w.write_string("rebooting ... \n\n");
            request = HwRequest::Reboot;
        },
        CommandKind::Halt => {
            request = HwRequest::Halt;
        },
        CommandKind::Tetris => {
            request = HwRequest::Tetris;
        },
        CommandKind::Clear => {
            ft_clear(w);
        },
        CommandKind::Gdt => {
            w.write_string("Global Descriptor Table (located at 0x800)\n");
            request = HwRequest::Gdt;
        },
        CommandKind::SwitchTab(n) => {
            ft_switch_tab(w, n as usize);
        },
        CommandKind::Unknown => {
            w.toggle_cmd(true);
            let ghost m2 = w@;
            w.write_string("kfs: ");
            w.write_bytes(&tok);
            w.write_string(": command not found\n");
            proof {
                lemma_write_bytes_append(m2, "kfs: ".spec_bytes(), tok@);
                lemma_write_bytes_append(
                    m2,
                    "kfs: ".spec_bytes() + tok@,
                    ": command not found\n".spec_bytes(),
                );
            }
        },
    }
    KeyOutcome { dispatched: Option::Some(k), request }
}

/// The glyph bytes of the most recently committed line of the active tab.
pub open spec fn last_line_bytes(m: TermModel) -> Seq<u8> {
    Seq::new(
        crate::BUFFER_WIDTH as nat,
        |i: int| m.rings[m.tab].slots[ring_last_slot(m.rings[m.tab])][i].ascii,
    )
}

/// The writer after one scan code: navigation codes scroll or move the
/// cursor, modifier codes only change the keyboard state, any other make
/// code below the table size writes its table byte, and the Enter code
/// additionally commits and dispatches the line just written.
pub open spec fn spec_handle(m: TermModel, ks: KeyboardState, scan: u8) -> TermModel {
    if scan == 72 {
        spec_scroll_up(m)
    } else if scan == 80 {
        spec_scroll_down(m)
    } else if scan == 75 {
        spec_move_cursor(m, -1)
    } else if scan == 77 {
        spec_move_cursor(m, 1)
    } else if scan == 42 || scan == 54 || scan == 170 || scan == 182 || scan == 58 {
        m
    } else if scan < 59 && scan != 0 {
        let m1 = spec_write_code(m, table_byte(scan, shifted_active(ks)));
        if scan == 28 {
            let line = last_line_bytes(m1);
            if !valid_utf8(line) {
                spec_write_bytes(
                    (TermModel { cmd: true, ..m1 }),
                    "Unprintable characters spotted\n".spec_bytes(),
                )
            } else if line[0] == 36 && line[1] == 62 {
                if ws_end(line, 2) == line.len() {
                    spec_write_bytes((TermModel { cmd: true, ..m1 }), "\n".spec_bytes())
                } else {
                    spec_call_function(m1, line)
                }
            } else {
                m1
            }
        } else {
            m1
        }
    } else {
        m
    }
}

/// The command dispatched by one scan code, if any: only the Enter code on
/// a valid, non-blank command line dispatches.
pub open spec fn spec_handle_dispatch(m: TermModel, ks: KeyboardState, scan: u8) -> Option<
    CommandKind,
> {
    if scan == 28 && !(scan == 72 || scan == 80 || scan == 75 || scan == 77) {
        let m1 = spec_write_code(m, table_byte(scan, shifted_active(ks)));
        let line = last_line_bytes(m1);
        if valid_utf8(line) && line[0] == 36 && line[1] == 62 && ws_end(line, 2) != line.len()
            && spec_line_token(line).len() != 0 {
            Option::Some(spec_command_of(spec_line_token(line)))
        } else {
            Option::None
        }
    } else {
        Option::None
    }
}

/// The hardware request one scan code yields, if any.
pub open spec fn spec_handle_request(m: TermModel, ks: KeyboardState, scan: u8) -> HwRequest {
    if scan == 28 && !(scan == 72 || scan == 80 || scan == 75 || scan == 77) {
        let m1 = spec_write_code(m, table_byte(scan, shifted_active(ks)));
        let line = last_line_bytes(m1);
        if valid_utf8(line) && line[0] == 36 && line[1] == 62 && ws_end(line, 2) != line.len() {
            spec_request_of(line)
        } else {
            HwRequest::Nothing
        }
    } else {
        HwRequest::Nothing
    }
}

/// Feeds one raw scan code through the decoder and applies its effect:
/// scrolling, cursor motion, modifier bookkeeping, character emission, and
/// on Enter the commit and dispatch of the command line just written.
pub fn handle_keyboard_input(w: &mut Writer, ks: &mut KeyboardState, scan_code: u8) -> (r:
    KeyOutcome)
    requires
        old(w).wf(),
    ensures
        final(w).wf(),
        final(w)@ == spec_handle(old(w)@, *old(ks), scan_code),
        *final(ks) == ks_next(*old(ks), scan_code),
        r.dispatched == spec_handle_dispatch(old(w)@, *old(ks), scan_code),
        r.request == spec_handle_request(old(w)@, *old(ks), scan_code),
{
    let nothing = KeyOutcome { dispatched: Option::None, request: HwRequest::Nothing };
    let action = decode(ks, scan_code);
    match action {
        KeyAction::ScrollUp => {
            w.scroll_up();
            nothing
        },
        KeyAction::ScrollDown => {
            w.scroll_down();
            nothing
        },
        KeyAction::CursorLeft => {
            w.move_cursor(-1);
            nothing
        },
        KeyAction::CursorRight => {
            w.move_cursor(1);
            nothing
        },
        KeyAction::Modifier => nothing,
        KeyAction::Nothing => nothing,
        KeyAction::Emit(b) => {
            w.write_code(b);
            if scan_code == 28 {
                let cells = w.get_last_line();
                let mut tmp: Vec<u8> = Vec::new();
                let mut i: usize = 0;
                while i < crate::BUFFER_WIDTH
                    invariant
                        0 <= i <= crate::BUFFER_WIDTH,
                        cells@.len() == crate::BUFFER_WIDTH,
                        tmp@.len() == i,
                        forall|k: int| 0 <= k < i ==> tmp@[k] == cells@[k].ascii,
                    decreases crate::BUFFER_WIDTH - i,
                {
                    tmp.push(cells[i].ascii);
                    i += 1;
                }
                proof {
                    assert(tmp@ =~= last_line_bytes(w@));
                }
                if !utf8_check(&tmp) {
                    w.toggle_cmd(true);
                    w.write_string("Unprintable characters spotted\n");
                    return nothing;
                }
                if tmp[0] == 36 && tmp[1] == 62 {
                    let b2 = skip_ws(&tmp, 2);
                    if b2 == tmp.len() {
                        w.toggle_cmd(true);
                        w.write_string("\n");
                        proof {
                            lemma_word_end_bounds(tmp@, b2 as int);
                            assert(spec_line_token(tmp@).len() == 0);
                        }
                        nothing
                    } else {
                        proof {
                            lemma_word_end_bounds(tmp@, b2 + 1);
                            assert(word_end(tmp@, b2 as int) == word_end(tmp@, b2 + 1));
                            assert(spec_line_token(tmp@).len() != 0);
                        }
                        call_function(w, &tmp)
                    }
                } else {
                    nothing
                }
            } else {
                nothing
            }
        },
    }
}

/// The welcome screen: the banner, the command overview in white, and a
/// first command prompt.
pub open spec fn spec_welcome(m: TermModel) -> TermModel {
    let m1 = spec_write_bytes(
        m,
        "/* ************************************************************************** */\n/*                                                                            */\n/*                                                        :::      ::::::::   */\n/*      Kernel from Scratch                             :+:      :+:    :+:   */\n/*                                                    +:+ +:+         +:+     */\n/*                                                  +#+  +:+       +#+        */\n/*                                                +#+#+#+#+#+   +#+           */\n/*                                                     #+#    #+#             */\n/*                                                    ###   ########.fr       */\n/*                                                                            */\n/* ************************************************************************** */\n".spec_bytes(),
    );
    let m2 = TermModel { color: ColorCode(attr(Color::White, Color::Black)), ..m1 };
    let m3 = spec_write_bytes(
        m2,
        "Welcome to our useless kernel !!!\nIt can't do much for now and probably never will\nBut here are a few commands you can use: \n \nhelp    : This is more or less what you're seeing right now !\necho    : Prints something on the screen, WOW ! <...args>\nstack   : Prints the stack\nreboot  : Reboots the machine\nhalt    : Halts the CPU (Why would you do that?)\ncolor   : Changes the writing color <...arg : Color>\nThere might be other hidden features...\n".spec_bytes(),
    );
    spec_write_bytes((TermModel { cmd: true, ..m3 }), "\n".spec_bytes())
}

/// Prints the welcome screen and enters command mode with a first prompt.
pub fn print_welcome_screen(w: &mut Writer)
    requires
        old(w).wf(),
    ensures
        final(w).wf(),
        final(w)@ == spec_welcome(old(w)@),
{
    w.write_string(
        "/* ************************************************************************** */\n/*                                                                            */\n/*                                                        :::      ::::::::   */\n/*      Kernel from Scratch                             :+:      :+:    :+:   */\n/*                                                    +:+ +:+         +:+     */\n/*                                                  +#+  +:+       +#+        */\n/*                                                +#+#+#+#+#+   +#+           */\n/*                                                     #+#    #+#             */\n/*                                                    ###   ########.fr       */\n/*                                                                            */\n/* ************************************************************************** */\n",
    );
    w.change_color(Color::White, Color::Black);
    w.write_string(
        "Welcome to our useless kernel !!!\nIt can't do much for now and probably never will\nBut here are a few commands you can use: \n \nhelp    : This is more or less what you're seeing right now !\necho    : Prints something on the screen, WOW ! <...args>\nstack   : Prints the stack\nreboot  : Reboots the machine\nhalt    : Halts the CPU (Why would you do that?)\ncolor   : Changes the writing color <...arg : Color>\nThere might be other hidden features...\n",
    );
    w.toggle_cmd(true);
    w.write_string("\n");
}

} // verus!
