//! The JSON form of a log entry: one line, with the fields in declaration
//! order and strings escaped as serde_json escapes them.

use vstd::prelude::*;
use vstd::string::*;
use crate::audit::entry::{LogEntry, LogEntryView};
use crate::text::{chars_of, decimal, push_char, push_decimal, push_str};

verus! {

/// Lower-case hexadecimal digit.
pub open spec fn hex_digit(n: nat) -> char {
    if n < 10 {
        (n + 48) as char
    } else {
        (n + 87) as char
    }
}

/// The value of a hexadecimal digit (0 for any other character).
pub open spec fn hex_value(c: char) -> nat {
    if '0' <= c && c <= '9' {
        (c as u32 - 48) as nat
    } else if 'a' <= c && c <= 'f' {
        (c as u32 - 87) as nat
    } else if 'A' <= c && c <= 'F' {
        (c as u32 - 55) as nat
    } else {
        0
    }
}

/// Reading a hexadecimal digit gives back its value.
pub proof fn lemma_hex_value_of_digit(n: nat)
    requires
        n < 16,
    ensures
        hex_value(hex_digit(n)) == n,
{
}

pub fn hex_digit_of(n: u8) -> (c: char)
    requires
        n < 16,
    ensures
        c == hex_digit(n as nat),
{
    match n {
        0 => '0',
        1 => '1',
        2 => '2',
        3 => '3',
        4 => '4',
        5 => '5',
        6 => '6',
        7 => '7',
        8 => '8',
        9 => '9',
        10 => 'a',
        11 => 'b',
        12 => 'c',
        13 => 'd',
        14 => 'e',
        _ => 'f',
    }
}

/// How one character appears inside a JSON string.
pub open spec fn json_escape_char(c: char) -> Seq<char> {
    if c == '"' {
        seq!['\\', '"']
    } else if c == '\\' {
        seq!['\\', '\\']
    } else if c == '\n' {
        seq!['\\', 'n']
    } else if c == '\r' {
        seq!['\\', 'r']
    } else if c == '\t' {
        seq!['\\', 't']
    } else if (c as u32) == 8 {
        seq!['\\', 'b']
    } else if (c as u32) == 12 {
        seq!['\\', 'f']
    } else if (c as u32) < 32 {
        seq!['\\', 'u', '0', '0', hex_digit((c as u32 / 16) as nat), hex_digit((c as u32 % 16) as nat)]
    } else {
        seq![c]
    }
}

/// The escaped characters of a string.
pub open spec fn json_escape(s: Seq<char>) -> Seq<char>
    decreases s.len(),
{
    if s.len() == 0 {
        Seq::empty()
    } else {
        json_escape(s.drop_last()) + json_escape_char(s.last())
    }
}

/// A JSON string literal.
pub open spec fn json_string(s: Seq<char>) -> Seq<char> {
    seq!['"'] + json_escape(s) + seq!['"']
}

/// Appends the escaped form of one character.
fn push_escaped_char(out: &mut String, c: char)
    ensures
        final(out)@ == old(out)@ + json_escape_char(c),
{
    let u = c as u32;
    if c == '"' {
        push_char(out, '\\');
        push_char(out, '"');
    } else if c == '\\' {
        push_char(out, '\\');
        push_char(out, '\\');
    } else if c == '\n' {
        push_char(out, '\\');
        push_char(out, 'n');
    } else if c == '\r' {
        push_char(out, '\\');
        push_char(out, 'r');
    } else if c == '\t' {
        push_char(out, '\\');
        push_char(out, 't');
    } else if u == 8 {
        push_char(out, '\\');
        push_char(out, 'b');
    } else if u == 12 {
        push_char(out, '\\');
        push_char(out, 'f');
    } else if u < 32 {
        push_char(out, '\\');
        push_char(out, 'u');
        push_char(out, '0');
        push_char(out, '0');
        push_char(out, hex_digit_of((u / 16) as u8));
        push_char(out, hex_digit_of((u % 16) as u8));
    } else {
        push_char(out, c);
    }
    assert(out@ =~= old(out)@ + json_escape_char(c));
}

/// Appends a JSON string literal.
pub fn push_json_string(out: &mut String, s: &str)
    ensures
        final(out)@ == old(out)@ + json_string(s@),
{
    let cs = chars_of(s);
    push_char(out, '"');
    let ghost start = out@;
    let mut i: usize = 0;
    while i < cs.len()
        invariant
            cs@ == s@,
            i <= cs.len(),
            out@ == start + json_escape(s@.subrange(0, i as int)),
        decreases cs.len() - i,
    {
        push_escaped_char(out, cs[i]);
        proof {
            let p = s@.subrange(0, i + 1);
            assert(p.drop_last() =~= s@.subrange(0, i as int));
            assert(p.last() == cs@[i as int]);
        }
        i = i + 1;
    }
    assert(s@.subrange(0, cs.len() as int) =~= s@);
    push_char(out, '"');
    assert(out@ =~= old(out)@ + json_string(s@));
}

/// The JSON object of an entry: what serde_json writes for it.
pub open spec fn entry_json(e: LogEntryView) -> Seq<char> {
    "{\"timestamp\":"@ + json_string(e.timestamp) + ",\"operator\":"@ + json_string(e.operator)
        + ",\"hostname\":"@ + json_string(e.hostname) + ",\"device_serial\":"@ + json_string(
        e.device_serial,
    ) + ",\"device_path\":"@ + json_string(e.device_path) + ",\"device_size_bytes\":"@ + decimal(
        e.device_size_bytes as nat,
    ) + ",\"algorithm\":"@ + json_string(e.algorithm) + ",\"pass_number\":"@ + decimal(
        e.pass_number as nat,
    ) + ",\"pass_pattern\":"@ + json_string(e.pass_pattern) + ",\"status\":\""@
        + e.status.spec_variant_name() + "\",\"error_detail\":"@ + match e.error_detail {
        Some(d) => json_string(d),
        None => "null"@,
    } + ",\"hmac_signature\":"@ + json_string(e.hmac_signature) + "}"@
}

/// Serialises an entry as one line of JSON (without the line break).
pub fn entry_to_json(e: &LogEntry) -> (r: String)
    ensures
        r@ == entry_json(e@),
{
    let mut r = String::from_str("{\"timestamp\":");
    push_json_string(&mut r, e.timestamp.as_str());
    push_str(&mut r, ",\"operator\":");
    push_json_string(&mut r, e.operator.as_str());
    push_str(&mut r, ",\"hostname\":");
    push_json_string(&mut r, e.hostname.as_str());
    push_str(&mut r, ",\"device_serial\":");
    push_json_string(&mut r, e.device_serial.as_str());
    push_str(&mut r, ",\"device_path\":");
    push_json_string(&mut r, e.device_path.as_str());
    push_str(&mut r, ",\"device_size_bytes\":");
    push_decimal(&mut r, e.device_size_bytes);
    push_str(&mut r, ",\"algorithm\":");
    push_json_string(&mut r, e.algorithm.as_str());
    push_str(&mut r, ",\"pass_number\":");
    push_decimal(&mut r, e.pass_number as u64);
    push_str(&mut r, ",\"pass_pattern\":");
    push_json_string(&mut r, e.pass_pattern.as_str());
    push_str(&mut r, ",\"status\":\"");
    push_str(&mut r, e.status.variant_name());
    push_str(&mut r, "\",\"error_detail\":");
    match &e.error_detail {
        Some(d) => push_json_string(&mut r, d.as_str()),
        None => push_str(&mut r, "null"),
    }
    push_str(&mut r, ",\"hmac_signature\":");
    push_json_string(&mut r, e.hmac_signature.as_str());
    push_str(&mut r, "}");
    assert(r@ =~= entry_json(e@));
    r
}

/// The escape of a character never holds a line break.
proof fn lemma_escape_char_has_no_line_break(c: char)
    ensures
        !json_escape_char(c).contains('\n'),
        !json_escape_char(c).contains('\r'),
{
    let e = json_escape_char(c);
    if (c as u32) < 32 {
        assert(hex_digit((c as u32 / 16) as nat) != '\n');
        assert(hex_digit((c as u32 % 16) as nat) != '\n');
    }
    assert forall|i: int| 0 <= i < e.len() implies e[i] != '\n' && e[i] != '\r' by {
    }
}

/// An escaped string holds no line break, whatever it escapes: a JSON
/// string never splits a line of the log.
pub proof fn lemma_escape_has_no_line_break(s: Seq<char>)
    ensures
        !json_escape(s).contains('\n'),
        !json_escape(s).contains('\r'),
    decreases s.len(),
{
    if s.len() > 0 {
        lemma_escape_has_no_line_break(s.drop_last());
        lemma_escape_char_has_no_line_break(s.last());
        let a = json_escape(s.drop_last());
        let b = json_escape_char(s.last());
        assert forall|i: int| 0 <= i < (a + b).len() implies (a + b)[i] != '\n' && (a + b)[i]
            != '\r' by {
            if i < a.len() {
                assert((a + b)[i] == a[i]);
            } else {
                assert((a + b)[i] == b[i - a.len()]);
            }
        }
    }
}

/// A text that holds no line feed and no carriage return.
pub open spec fn one_line(s: Seq<char>) -> bool {
    forall|i: int| 0 <= i < s.len() ==> #[trigger] s[i] != '\n' && s[i] != '\r'
}

proof fn lemma_one_line_concat(a: Seq<char>, b: Seq<char>)
    requires
        one_line(a),
        one_line(b),
    ensures
        one_line(a + b),
{
    assert forall|i: int| 0 <= i < (a + b).len() implies #[trigger] (a + b)[i] != '\n' && (a + b)[i]
        != '\r' by {
        if i < a.len() {
            assert((a + b)[i] == a[i]);
        } else {
            assert((a + b)[i] == b[i - a.len()]);
        }
    }
}

proof fn lemma_decimal_one_line(n: nat)
    ensures
        one_line(decimal(n)),
    decreases n,
{
    if n >= 10 {
        lemma_decimal_one_line(n / 10);
        let d = decimal(n / 10);
        assert forall|i: int| 0 <= i < decimal(n).len() implies #[trigger] decimal(n)[i] != '\n'
            && decimal(n)[i] != '\r' by {
            if i < d.len() {
                assert(decimal(n)[i] == d[i]);
            }
        }
    }
}

proof fn lemma_json_string_one_line(s: Seq<char>)
    ensures
        one_line(json_string(s)),
{
    lemma_escape_has_no_line_break(s);
    let e = json_escape(s);
    assert forall|i: int| 0 <= i < e.len() implies #[trigger] e[i] != '\n' && e[i] != '\r' by {
        if e[i] == '\n' {
            assert(e.contains('\n'));
        }
        if e[i] == '\r' {
            assert(e.contains('\r'));
        }
    }
    lemma_one_line_concat(seq!['"'], e);
    lemma_one_line_concat(seq!['"'] + e, seq!['"']);
}

/// The JSON of an entry is one line, whatever its fields hold: every entry
/// takes exactly one line of the log file.
pub proof fn lemma_entry_json_is_one_line(e: LogEntryView)
    ensures
        one_line(entry_json(e)),
{
    reveal_strlit("{\"timestamp\":");
    reveal_strlit(",\"operator\":");
    reveal_strlit(",\"hostname\":");
    reveal_strlit(",\"device_serial\":");
    reveal_strlit(",\"device_path\":");
    reveal_strlit(",\"device_size_bytes\":");
    reveal_strlit(",\"algorithm\":");
    reveal_strlit(",\"pass_number\":");
    reveal_strlit(",\"pass_pattern\":");
    reveal_strlit(",\"status\":\"");
    reveal_strlit("\",\"error_detail\":");
    reveal_strlit("null");
    reveal_strlit(",\"hmac_signature\":");
    reveal_strlit("}");
    reveal_strlit("Started");
    reveal_strlit("PassComplete");
    reveal_strlit("Completed");
    reveal_strlit("Interrupted");
    reveal_strlit("Error");
    reveal_strlit("Cancelled");
    lemma_json_string_one_line(e.timestamp);
    lemma_json_string_one_line(e.operator);
    lemma_json_string_one_line(e.hostname);
    lemma_json_string_one_line(e.device_serial);
    lemma_json_string_one_line(e.device_path);
    lemma_json_string_one_line(e.algorithm);
    lemma_json_string_one_line(e.pass_pattern);
    lemma_json_string_one_line(e.hmac_signature);
    lemma_decimal_one_line(e.device_size_bytes as nat);
    lemma_decimal_one_line(e.pass_number as nat);
    let detail = match e.error_detail {
        Some(d) => json_string(d),
        None => "null"@,
    };
    if let Some(d) = e.error_detail {
        lemma_json_string_one_line(d);
    }
    let a0 = "{\"timestamp\":"@;
    assert(one_line(a0));
    assert(one_line(json_string(e.timestamp)));
    lemma_one_line_concat(a0, json_string(e.timestamp));
    let a1 = a0 + json_string(e.timestamp);
    assert(one_line(",\"operator\":"@));
    lemma_one_line_concat(a1, ",\"operator\":"@);
    let a2 = a1 + ",\"operator\":"@;
    assert(one_line(json_string(e.operator)));
    lemma_one_line_concat(a2, json_string(e.operator));
    let a3 = a2 + json_string(e.operator);
    assert(one_line(",\"hostname\":"@));
    lemma_one_line_concat(a3, ",\"hostname\":"@);
    let a4 = a3 + ",\"hostname\":"@;
    assert(one_line(json_string(e.hostname)));
    lemma_one_line_concat(a4, json_string(e.hostname));
    let a5 = a4 + json_string(e.hostname);
    assert(one_line(",\"device_serial\":"@));
    lemma_one_line_concat(a5, ",\"device_serial\":"@);
    let a6 = a5 + ",\"device_serial\":"@;
    assert(one_line(json_string(e.device_serial)));
    lemma_one_line_concat(a6, json_string(e.device_serial));
    let a7 = a6 + json_string(e.device_serial);
    assert(one_line(",\"device_path\":"@));
    lemma_one_line_concat(a7, ",\"device_path\":"@);
    let a8 = a7 + ",\"device_path\":"@;
    assert(one_line(json_string(e.device_path)));
    lemma_one_line_concat(a8, json_string(e.device_path));
    let a9 = a8 + json_string(e.device_path);
    assert(one_line(",\"device_size_bytes\":"@));
    lemma_one_line_concat(a9, ",\"device_size_bytes\":"@);
    let a10 = a9 + ",\"device_size_bytes\":"@;
    assert(one_line(decimal(e.device_size_bytes as nat)));
    lemma_one_line_concat(a10, decimal(e.device_size_bytes as nat));
    let a11 = a10 + decimal(e.device_size_bytes as nat);
    assert(one_line(",\"algorithm\":"@));
    lemma_one_line_concat(a11, ",\"algorithm\":"@);
    let a12 = a11 + ",\"algorithm\":"@;
    assert(one_line(json_string(e.algorithm)));
    lemma_one_line_concat(a12, json_string(e.algorithm));
    let a13 = a12 + json_string(e.algorithm);
    assert(one_line(",\"pass_number\":"@));
    lemma_one_line_concat(a13, ",\"pass_number\":"@);
    let a14 = a13 + ",\"pass_number\":"@;
    assert(one_line(decimal(e.pass_number as nat)));
    lemma_one_line_concat(a14, decimal(e.pass_number as nat));
    let a15 = a14 + decimal(e.pass_number as nat);
    assert(one_line(",\"pass_pattern\":"@));
    lemma_one_line_concat(a15, ",\"pass_pattern\":"@);
    let a16 = a15 + ",\"pass_pattern\":"@;
    assert(one_line(json_string(e.pass_pattern)));
    lemma_one_line_concat(a16, json_string(e.pass_pattern));
    let a17 = a16 + json_string(e.pass_pattern);
    assert(one_line(",\"status\":\""@));
    lemma_one_line_concat(a17, ",\"status\":\""@);
    let a18 = a17 + ",\"status\":\""@;
    assert(one_line(e.status.spec_variant_name()));
    lemma_one_line_concat(a18, e.status.spec_variant_name());
    let a19 = a18 + e.status.spec_variant_name();
    assert(one_line("\",\"error_detail\":"@));
    lemma_one_line_concat(a19, "\",\"error_detail\":"@);
    let a20 = a19 + "\",\"error_detail\":"@;
    assert(one_line(detail));
    lemma_one_line_concat(a20, detail);
    let a21 = a20 + detail;
    assert(one_line(",\"hmac_signature\":"@));
    lemma_one_line_concat(a21, ",\"hmac_signature\":"@);
    let a22 = a21 + ",\"hmac_signature\":"@;
    assert(one_line(json_string(e.hmac_signature)));
    lemma_one_line_concat(a22, json_string(e.hmac_signature));
    let a23 = a22 + json_string(e.hmac_signature);
    assert(one_line("}"@));
    lemma_one_line_concat(a23, "}"@);
    let a24 = a23 + "}"@;
    assert(a24 =~= entry_json(e));
}

} // verus!
