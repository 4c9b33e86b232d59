//! The daemon's side of command handling: JSON string escaping for its
//! replies, the count of logged steps, the logging enforcement that refuses
//! commands while steps go unlogged, and the replies themselves.

use vstd::prelude::*;
use crate::text::{
    chars_of, decimal, is_control, is_control_char, lines, next_line, push_char, push_decimal, push_seq, trim, trim_range, trim_str,
};

verus! {

/// The lower-case hexadecimal digit for `d < 16`.
pub open spec fn hex_digit(d: nat) -> char {
    if d < 10 {
        crate::text::digit_char(d)
    } else if d == 10 {
        'a'
    } else if d == 11 {
        'b'
    } else if d == 12 {
        'c'
    } else if d == 13 {
        'd'
    } else if d == 14 {
        'e'
    } else {
        'f'
    }
}

/// How one character is written inside a JSON string: quote, backslash,
/// newline, carriage return and tab by their short escapes, other control
/// characters as `\u` and four lower-case hex digits, all else as itself.
pub open spec fn escape_char(c: char) -> Seq<char> {
    if c == '"' {
        seq!['\\', '"']
    } else if c == '\\' {
        seq!['\\', '\\']
    } else if c == '\n' {
        seq!['\\', 'n']
    } else if c == '\r' {
        seq!['\\', 'r']
    } else if c == '\t' {
        seq!['\\', 't']
    } else if is_control_char(c) {
        let n = c as u32 as nat;
        seq![
            '\\',
            'u',
            hex_digit((n / 4096) % 16),
            hex_digit((n / 256) % 16),
            hex_digit((n / 16) % 16),
            hex_digit(n % 16),
        ]
    } else {
        seq![c]
    }
}

/// `s` escaped for a JSON string, character by character.
pub open spec fn spec_json_escape(s: Seq<char>) -> Seq<char>
    decreases s.len(),
{
    if s.len() == 0 {
        s
    } else {
        spec_json_escape(s.drop_last()) + escape_char(s.last())
    }
}

fn hex(d: u32) -> (c: char)
    requires
        d < 16,
    ensures
        c == hex_digit(d as nat),
{
    if d < 10 {
        if d == 0 {
            '0'
        } else if d == 1 {
            '1'
        } else if d == 2 {
            '2'
        } else if d == 3 {
            '3'
        } else if d == 4 {
            '4'
        } else if d == 5 {
            '5'
        } else if d == 6 {
            '6'
        } else if d == 7 {
            '7'
        } else if d == 8 {
            '8'
        } else {
            '9'
        }
    } else if d == 10 {
        'a'
    } else if d == 11 {
        'b'
    } else if d == 12 {
        'c'
    } else if d == 13 {
        'd'
    } else if d == 14 {
        'e'
    } else {
        'f'
    }
}

/// Escapes `s` for use inside a JSON string.
pub fn json_escape(s: &str) -> (out: String)
    ensures
        out@ == spec_json_escape(s@),
{
    let v = chars_of(s);
    let mut out = String::new();
    let n = v.len();
    let mut i: usize = 0;
    while i < n
        invariant
            0 <= i <= n == v@.len(),
            out@ == spec_json_escape(v@.take(i as int)),
        decreases n - i,
    {
        assert(v@.take(i + 1).drop_last() == v@.take(i as int));
        assert(v@.take(i + 1).last() == v@[i as int]);
        let ghost before = out@;
        let c = v[i];
        if c == '"' {
            push_char(&mut out, '\\');
            push_char(&mut out, '"');
        } else if c == '\\' {
            push_char(&mut out, '\\');
            push_char(&mut out, '\\');
        } else if c == '\n' {
            push_char(&mut out, '\\');
            push_char(&mut out, 'n');
        } else if c == '\r' {
            push_char(&mut out, '\\');
            push_char(&mut out, 'r');
        } else if c == '\t' {
            push_char(&mut out, '\\');
            push_char(&mut out, 't');
        } else if is_control(c) {
            let n32 = c as u32;
            push_char(&mut out, '\\');
            push_char(&mut out, 'u');
            push_char(&mut out, hex((n32 / 4096) % 16));
            push_char(&mut out, hex((n32 / 256) % 16));
            push_char(&mut out, hex((n32 / 16) % 16));
            push_char(&mut out, hex(n32 % 16));
        } else {
            push_char(&mut out, c);
        }
        assert(out@ == before + escape_char(c));
        i = i + 1;
    }
    assert(v@.take(n as int) == v@);
    out
}

/// The value of a hexadecimal digit.
pub open spec fn hex_value(c: char) -> Option<nat> {
    if '0' <= c && c <= '9' {
        Some((c as u32 - '0' as u32) as nat)
    } else if 'a' <= c && c <= 'f' {
        Some((c as u32 - 'a' as u32 + 10) as nat)
    } else if 'A' <= c && c <= 'F' {
        Some((c as u32 - 'A' as u32 + 10) as nat)
    } else {
        None
    }
}

/// The character that a one-letter JSON escape stands for.
pub open spec fn short_escape(e: char) -> Option<char> {
    if e == '"' {
        Some('"')
    } else if e == '\\' {
        Some('\\')
    } else if e == '/' {
        Some('/')
    } else if e == 'b' {
        Some('\u{8}')
    } else if e == 'f' {
        Some('\u{c}')
    } else if e == 'n' {
        Some('\n')
    } else if e == 'r' {
        Some('\r')
    } else if e == 't' {
        Some('\t')
    } else {
        None
    }
}

/// The text that the body of a JSON string stands for (RFC 8259), or none
/// when it is no valid body: an unescaped quote or control character, or a
/// bad escape. A `\u` escape of a surrogate is refused (pairs are not
/// decoded here).
pub open spec fn json_unescape(s: Seq<char>) -> Option<Seq<char>>
    decreases s.len(),
{
    if s.len() == 0 {
        Some(Seq::empty())
    } else if s[0] == '\\' {
        if s.len() < 2 {
            None
        } else {
            match short_escape(s[1]) {
                Some(c) => match json_unescape(s.skip(2)) {
                    Some(rest) => Some(seq![c] + rest),
                    None => None,
                },
                None => if s[1] == 'u' && s.len() >= 6 && hex_value(s[2]) is Some && hex_value(
                    s[3],
                ) is Some && hex_value(s[4]) is Some && hex_value(s[5]) is Some {
                    let n = hex_value(s[2]).unwrap() * 4096 + hex_value(s[3]).unwrap() * 256
                        + hex_value(s[4]).unwrap() * 16 + hex_value(s[5]).unwrap();
                    if 0xd800 <= n && n <= 0xdfff {
                        None
                    } else {
                        match json_unescape(s.skip(6)) {
                            Some(rest) => Some(seq![n as char] + rest),
                            None => None,
                        }
                    }
                } else {
                    None
                },
            }
        }
    } else if s[0] == '"' || s[0] <= '\u{1f}' {
        None
    } else {
        match json_unescape(s.drop_first()) {
            Some(rest) => Some(seq![s[0]] + rest),
            None => None,
        }
    }
}

proof fn lemma_hex_digit_value(d: nat)
    requires
        d < 16,
    ensures
        hex_value(hex_digit(d)) == Some(d),
{
}

proof fn lemma_unescape_char(c: char, t: Seq<char>, u: Seq<char>)
    requires
        json_unescape(t) == Some(u),
    ensures
        json_unescape(escape_char(c) + t) == Some(seq![c] + u),
{
    let s = escape_char(c) + t;
    let e = escape_char(c);
    if c == '"' || c == '\\' || c == '\n' || c == '\r' || c == '\t' {
        assert(s.skip(2) == t);
        assert(s[0] == '\\');
        assert(s[1] == e[1]);
    } else if is_control_char(c) {
        let n = c as u32 as nat;
        assert(n <= 0x9f);
        let d3 = (n / 4096) % 16;
        let d2 = (n / 256) % 16;
        let d1 = (n / 16) % 16;
        let d0 = n % 16;
        lemma_hex_digit_value(d3);
        lemma_hex_digit_value(d2);
        lemma_hex_digit_value(d1);
        lemma_hex_digit_value(d0);
        assert(d3 == 0 && d2 == 0);
        assert(d1 * 16 + d0 == n) by (nonlinear_arith)
            requires
                d1 == (n / 16) % 16,
                d0 == n % 16,
                n < 256,
        ;
        assert(s[0] == '\\' && s[1] == 'u');
        assert(s[2] == e[2] && s[3] == e[3] && s[4] == e[4] && s[5] == e[5]);
        assert(s.skip(6) == t);
        assert((c as u32) as char == c);
    } else {
        assert(s[0] == c);
        assert(s.drop_first() == t);
    }
}

/// Escaping loses nothing: the escape of any text, read back as the body
/// of a JSON string, gives the text again. The daemon's error replies
/// therefore carry the error message unchanged.
pub proof fn json_escape_round_trip(s: Seq<char>)
    ensures
        json_unescape(spec_json_escape(s)) == Some(s),
    decreases s.len(),
{
    if s.len() == 0 {
    } else {
        let rest = s.drop_first();
        json_escape_round_trip(rest);
        json_escape_concat(seq![s[0]], rest);
        assert(seq![s[0]] + rest == s);
        let one = seq![s[0]];
        assert(one.drop_last() == Seq::<char>::empty());
        assert(one.last() == s[0]);
        assert(spec_json_escape(one.drop_last()) == Seq::<char>::empty());
        assert(Seq::<char>::empty() + escape_char(s[0]) == escape_char(s[0]));
        assert(spec_json_escape(one) == escape_char(s[0]));
        lemma_unescape_char(s[0], spec_json_escape(rest), rest);
    }
}

/// Escaping works piecewise: the escape of a concatenation is the
/// concatenation of the escapes.
pub proof fn json_escape_concat(a: Seq<char>, b: Seq<char>)
    ensures
        spec_json_escape(a + b) == spec_json_escape(a) + spec_json_escape(b),
    decreases b.len(),
{
    if b.len() == 0 {
        assert(a + b == a);
    } else {
        json_escape_concat(a, b.drop_last());
        assert((a + b).drop_last() == a + b.drop_last());
        assert((a + b).last() == b.last());
    }
}

/// The escape of any text holds no control character, and no quote that
/// is not preceded by a backslash, so it can stand inside a JSON string.
pub proof fn json_escape_is_clean(s: Seq<char>)
    ensures
        forall|i: int|
            0 <= i < spec_json_escape(s).len() ==> !is_control_char(
                #[trigger] spec_json_escape(s)[i],
            ),
        forall|i: int|
            0 <= i < spec_json_escape(s).len() && #[trigger] spec_json_escape(s)[i] == '"' ==> i > 0
                && spec_json_escape(s)[i - 1] == '\\',
    decreases s.len(),
{
    if s.len() > 0 {
        json_escape_is_clean(s.drop_last());
        let p = spec_json_escape(s.drop_last());
        let e = escape_char(s.last());
        let out = spec_json_escape(s);
        assert(out == p + e);
        let c = s.last();
        assert forall|i: int| 0 <= i < out.len() implies !is_control_char(#[trigger] out[i]) by {
            if i >= p.len() {
                let n = c as u32 as nat;
                assert(out[i] == e[i - p.len()]);
                if is_control_char(c) && c != '\n' && c != '\r' && c != '\t' {
                    assert(hex_digit((n / 4096) % 16) <= 'f');
                }
            } else {
                assert(out[i] == p[i]);
            }
        }
        assert forall|i: int|
            0 <= i < out.len() && #[trigger] out[i] == '"' implies i > 0 && out[i - 1] == '\\' by {
            if i >= p.len() {
                assert(out[i] == e[i - p.len()]);
                if i - 1 >= p.len() {
                    assert(out[i - 1] == e[i - 1 - p.len()]);
                }
            } else {
                assert(out[i] == p[i]);
                assert(out[i - 1] == p[i - 1]);
            }
        }
    }
}

/// How many lines of a run log hold an entry (are not blank).
pub open spec fn count_entries(ls: Seq<Seq<char>>) -> nat
    decreases ls.len(),
{
    if ls.len() == 0 {
        0
    } else {
        count_entries(ls.drop_last()) + if trim(ls.last()).len() > 0 {
            1nat
        } else {
            0nat
        }
    }
}

/// The number of logged steps in the text of a run log: its non-blank
/// lines.
pub fn count_logged_steps(text: &str) -> (n: usize)
    ensures
        n == count_entries(lines(text@)),
{
    let v = chars_of(text);
    let len = v.len();
    let ghost ls = lines(v@);
    let ghost mut seen: Seq<Seq<char>> = Seq::empty();
    let mut count: usize = 0;
    let mut pos: usize = 0;
    assert(v@.skip(0) == v@);
    while pos < len
        invariant
            pos <= len == v@.len(),
            v@ == text@,
            ls == lines(v@),
            ls == seen + lines(v@.skip(pos as int)),
            count == count_entries(seen),
            count <= pos,
        decreases len - pos,
    {
        let (a, b, next) = next_line(&v, pos);
        let ghost line = v@.subrange(a as int, b as int);
        assert(seen.push(line).drop_last() == seen);
        assert(ls == seen.push(line) + lines(v@.skip(next as int)));
        let (x, y) = trim_range(&v, a, b);
        if x < y {
            count = count + 1;
        }
        proof {
            seen = seen.push(line);
        }
        pos = next;
    }
    assert(v@.skip(len as int).len() == 0);
    assert(lines(v@.skip(len as int)) == Seq::<Seq<char>>::empty());
    assert(ls == seen);
    count
}

/// Whether the daemon refuses a command for want of logging: the previous
/// step went unlogged, so more screenshots were taken than steps were
/// logged (the count of logged steps taken modulo 2^32).
pub open spec fn spec_unlogged_steps_exceeded(screenshots: u32, logged: usize) -> bool {
    screenshots > (logged as u32)
}

/// Whether a command must be refused because steps went unlogged.
pub fn unlogged_steps_exceeded(screenshots: u32, logged: usize) -> (b: bool)
    ensures
        b == spec_unlogged_steps_exceeded(screenshots, logged),
{
    let l = logged as u32;
    screenshots.saturating_sub(l) >= 1
}

/// Whether the daemon refuses a command: logging is enforced (not switched
/// off by `--no-require-logging`), a run id is set, and the previous step
/// went unlogged.
pub open spec fn spec_refuse_command(
    no_require_logging: bool,
    run_id_set: bool,
    screenshots: u32,
    logged: usize,
) -> bool {
    !no_require_logging && run_id_set && spec_unlogged_steps_exceeded(screenshots, logged)
}

/// Whether the daemon refuses a command for want of logging.
pub fn refuse_command(
    no_require_logging: bool,
    run_id_set: bool,
    screenshots: u32,
    logged: usize,
) -> (b: bool)
    ensures
        b == spec_refuse_command(no_require_logging, run_id_set, screenshots, logged),
{
    !no_require_logging && run_id_set && unlogged_steps_exceeded(screenshots, logged)
}

/// The message with which a command is refused for want of logging.
pub open spec fn spec_unlogged_step_message(screenshots: u32, logged: usize) -> Seq<char> {
    "UNLOGGED_STEP: Must call --log-step before sending next command. screenshots_taken="@
        + decimal(screenshots as nat) + ", logged_steps="@ + decimal(logged as nat)
}

/// The message with which a command is refused for want of logging.
pub fn unlogged_step_message(screenshots: u32, logged: usize) -> (m: String)
    ensures
        m@ == spec_unlogged_step_message(screenshots, logged),
{
    let mut m = String::new();
    push_seq(
        &mut m,
        "UNLOGGED_STEP: Must call --log-step before sending next command. screenshots_taken=",
    );
    push_decimal(&mut m, screenshots as u64);
    push_seq(&mut m, ", logged_steps=");
    push_decimal(&mut m, logged as u64);
    m
}

/// The command a daemon request line carries: the line trimmed, or none
/// when that is empty.
pub fn daemon_command(line: &str) -> (c: Option<String>)
    ensures
        trim(line@).len() == 0 ==> c is None,
        trim(line@).len() > 0 ==> (c matches Some(s) && s@ == trim(line@)),
{
    let t = trim_str(line);
    if t.as_str().is_empty() {
        None
    } else {
        Some(t)
    }
}

/// The daemon's reply to a command: `{"ok":true}`, or `{"ok":false,"err":...}`
/// with the error message escaped.
pub open spec fn spec_daemon_response(error: Option<Seq<char>>) -> Seq<char> {
    match error {
        None => "{\"ok\":true}"@,
        Some(m) => "{\"ok\":false,\"err\":\""@ + spec_json_escape(m) + "\"}"@,
    }
}

/// The daemon's reply to a command that succeeded (`None`) or failed with
/// the given message.
pub fn daemon_response(error: Option<&str>) -> (r: String)
    ensures
        r@ == spec_daemon_response(
            match error {
                Some(m) => Some(m@),
                None => None,
            },
        ),
{
    let mut r = String::new();
    match error {
        None => push_seq(&mut r, "{\"ok\":true}"),
        Some(m) => {
            push_seq(&mut r, "{\"ok\":false,\"err\":\"");
            let e = json_escape(m);
            push_seq(&mut r, e.as_str());
            push_seq(&mut r, "\"}");
        },
    }
    r
}

} // verus!
