//! Reading a log line back: the JSON that is written for an entry loses
//! nothing, so the entry can be recovered from its line.

use vstd::prelude::*;
use crate::audit::entry::{LogEntryView, LogStatus};
use crate::audit::json::{
    entry_json, hex_digit, hex_value, json_escape, json_escape_char, json_string, lemma_hex_value_of_digit,
};
use crate::audit::sign::{signing_payload, unsigned};
use vstd::utf8::*;
use crate::text::{all_digits, decimal, digit_char, digits_value, is_digit};

verus! {

/// The character that a two-character escape `\x` stands for.
pub open spec fn escaped_char(x: char) -> Option<char> {
    if x == '"' {
        Some('"')
    } else if x == '\\' {
        Some('\\')
    } else if x == '/' {
        Some('/')
    } else if x == 'n' {
        Some('\n')
    } else if x == 'r' {
        Some('\r')
    } else if x == 't' {
        Some('\t')
    } else if x == 'b' {
        Some('\u{8}')
    } else if x == 'f' {
        Some('\u{c}')
    } else {
        None
    }
}

/// Reads the inside of a JSON string up to its closing quote: the text it
/// stands for and what follows the quote; `None` when there is no closing
/// quote or an escape is not understood.
pub open spec fn read_json_text(s: Seq<char>) -> Option<(Seq<char>, Seq<char>)>
    decreases s.len(),
{
    if s.len() == 0 {
        None
    } else if s[0] == '"' {
        Some((Seq::empty(), s.drop_first()))
    } else if s[0] == '\\' {
        if s.len() >= 6 && s[1] == 'u' {
            let v = (hex_value(s[2]) * 4096 + hex_value(s[3]) * 256 + hex_value(s[4]) * 16 + hex_value(
                s[5],
            )) as u32;
            match read_json_text(s.subrange(6, s.len() as int)) {
                Some((d, r)) => Some((seq![v as char] + d, r)),
                None => None,
            }
        } else if s.len() >= 2 && escaped_char(s[1]) is Some {
            match read_json_text(s.subrange(2, s.len() as int)) {
                Some((d, r)) => Some((seq![escaped_char(s[1])->0] + d, r)),
                None => None,
            }
        } else {
            None
        }
    } else {
        match read_json_text(s.drop_first()) {
            Some((d, r)) => Some((seq![s[0]] + d, r)),
            None => None,
        }
    }
}

/// Escaping works character by character from the front too.
proof fn lemma_escape_front(c: char, a: Seq<char>)
    ensures
        json_escape(seq![c] + a) == json_escape_char(c) + json_escape(a),
    decreases a.len(),
{
    let s = seq![c] + a;
    if a.len() == 0 {
        assert(s.drop_last() =~= Seq::<char>::empty());
        assert(s.last() == c);
        assert(s.len() == 1);
        assert(json_escape(s) == json_escape(s.drop_last()) + json_escape_char(s.last()));
        assert(json_escape(s.drop_last()) == Seq::<char>::empty());
        assert(json_escape(a) == Seq::<char>::empty());
        assert(json_escape(s) =~= json_escape_char(c) + json_escape(a));
    } else {
        lemma_escape_front(c, a.drop_last());
        assert(s.drop_last() =~= seq![c] + a.drop_last());
        assert(s.last() == a.last());
        let e1 = json_escape_char(c);
        let e2 = json_escape(a.drop_last());
        let e3 = json_escape_char(a.last());
        assert(json_escape(s) == json_escape(s.drop_last()) + json_escape_char(s.last()));
        assert(json_escape(s) == (e1 + e2) + e3);
        assert(json_escape(a) == e2 + e3);
        assert((e1 + e2) + e3 =~= e1 + (e2 + e3));
    }
}

/// Reading one escaped character gives the character back.
proof fn lemma_read_escaped_char(c: char, x: Seq<char>)
    ensures
        read_json_text(json_escape_char(c) + x) == match read_json_text(x) {
            Some((d, r)) => Some((seq![c] + d, r)),
            None => None::<(Seq<char>, Seq<char>)>,
        },
{
    let s = json_escape_char(c) + x;
    let u = c as u32;
    if c == '"' || c == '\\' || c == '\n' || c == '\r' || c == '\t' || u == 8 || u == 12 {
        assert(s.subrange(2, s.len() as int) =~= x);
        if u == 8 {
            vstd::utf8::char_u32_cast(c, u);
            assert(c == '\u{8}');
        }
        if u == 12 {
            vstd::utf8::char_u32_cast(c, u);
            assert(c == '\u{c}');
        }
    } else if u < 32 {
        assert(s.subrange(6, s.len() as int) =~= x);
        lemma_hex_value_of_digit((u / 16) as nat);
        lemma_hex_value_of_digit((u % 16) as nat);
        assert(hex_value(s[2]) == 0);
        assert(hex_value(s[3]) == 0);
        let v = (hex_value(s[2]) * 4096 + hex_value(s[3]) * 256 + hex_value(s[4]) * 16 + hex_value(s[5])) as u32;
        assert(v == u);
        vstd::utf8::char_u32_cast(c, u);
    } else {
        assert(s.drop_first() =~= x);
    }
}

/// Reading an escaped text followed by a quote gives the text back, and
/// what follows the quote.
pub proof fn lemma_read_escaped_text(a: Seq<char>, rest: Seq<char>)
    ensures
        read_json_text(json_escape(a) + seq!['"'] + rest) == Some((a, rest)),
    decreases a.len(),
{
    if a.len() == 0 {
        assert(json_escape(a) =~= Seq::<char>::empty());
        let s = json_escape(a) + seq!['"'] + rest;
        assert(s.drop_first() =~= rest);
    } else {
        let c = a[0];
        let t = a.drop_first();
        assert(a =~= seq![c] + t);
        lemma_escape_front(c, t);
        lemma_read_escaped_text(t, rest);
        let x = json_escape(t) + seq!['"'] + rest;
        lemma_read_escaped_char(c, x);
        assert(json_escape(a) + seq!['"'] + rest =~= json_escape_char(c) + x);
        assert(seq![c] + t =~= a);
    }
}

/// A JSON string followed by anything determines the string and the rest.
pub proof fn lemma_json_string_split(a: Seq<char>, x: Seq<char>, b: Seq<char>, y: Seq<char>)
    requires
        json_string(a) + x == json_string(b) + y,
    ensures
        a == b,
        x == y,
{
    let sa = json_string(a) + x;
    let sb = json_string(b) + y;
    assert(sa.drop_first() =~= json_escape(a) + seq!['"'] + x);
    assert(sb.drop_first() =~= json_escape(b) + seq!['"'] + y);
    lemma_read_escaped_text(a, x);
    lemma_read_escaped_text(b, y);
}

/// The JSON value of the optional error detail.
pub open spec fn detail_json(d: Option<Seq<char>>) -> Seq<char> {
    match d {
        Some(x) => json_string(x),
        None => "null"@,
    }
}

/// The pieces of the JSON line of an entry, in order.
pub open spec fn json_parts(e: LogEntryView) -> Seq<Seq<char>> {
    seq![
        "{\"timestamp\":"@,
        json_string(e.timestamp),
        ",\"operator\":"@,
        json_string(e.operator),
        ",\"hostname\":"@,
        json_string(e.hostname),
        ",\"device_serial\":"@,
        json_string(e.device_serial),
        ",\"device_path\":"@,
        json_string(e.device_path),
        ",\"device_size_bytes\":"@,
        decimal(e.device_size_bytes as nat),
        ",\"algorithm\":"@,
        json_string(e.algorithm),
        ",\"pass_number\":"@,
        decimal(e.pass_number as nat),
        ",\"pass_pattern\":"@,
        json_string(e.pass_pattern),
        ",\"status\":\""@,
        e.status.spec_variant_name(),
        "\",\"error_detail\":"@,
        detail_json(e.error_detail),
        ",\"hmac_signature\":"@,
        json_string(e.hmac_signature),
        "}"@,
    ]
}

/// The pieces one after the other.
pub open spec fn join_all(parts: Seq<Seq<char>>) -> Seq<char>
    decreases parts.len(),
{
    if parts.len() == 0 {
        Seq::empty()
    } else {
        parts[0] + join_all(parts.drop_first())
    }
}

proof fn lemma_join_all_push(parts: Seq<Seq<char>>, p: Seq<char>)
    ensures
        join_all(parts.push(p)) == join_all(parts) + p,
    decreases parts.len(),
{
    let q = parts.push(p);
    if parts.len() == 0 {
        assert(q.drop_first() =~= Seq::<Seq<char>>::empty());
        assert(join_all(q.drop_first()) == Seq::<char>::empty());
        assert(q[0] == p);
        assert(join_all(q) == p + Seq::<char>::empty());
        assert(join_all(q) =~= join_all(parts) + p);
    } else {
        assert(q.drop_first() =~= parts.drop_first().push(p));
        lemma_join_all_push(parts.drop_first(), p);
        assert(q[0] == parts[0]);
        assert(join_all(q) =~= join_all(parts) + p);
    }
}

proof fn lemma_peel(p: Seq<Seq<char>>, k: int)
    requires
        0 <= k < p.len(),
    ensures
        join_all(p.subrange(k, p.len() as int)) == p[k] + join_all(p.subrange(k + 1, p.len() as int)),
{
    let q = p.subrange(k, p.len() as int);
    assert(q.drop_first() =~= p.subrange(k + 1, p.len() as int));
    assert(q[0] == p[k]);
}

proof fn lemma_entry_json_parts(e: LogEntryView)
    ensures
        entry_json(e) == join_all(json_parts(e)),
{
    let s0 = Seq::<Seq<char>>::empty();
    let s1 = s0.push("{\"timestamp\":"@);
    lemma_join_all_push(s0, "{\"timestamp\":"@);
    let s2 = s1.push(json_string(e.timestamp));
    lemma_join_all_push(s1, json_string(e.timestamp));
    let s3 = s2.push(",\"operator\":"@);
    lemma_join_all_push(s2, ",\"operator\":"@);
    let s4 = s3.push(json_string(e.operator));
    lemma_join_all_push(s3, json_string(e.operator));
    let s5 = s4.push(",\"hostname\":"@);
    lemma_join_all_push(s4, ",\"hostname\":"@);
    let s6 = s5.push(json_string(e.hostname));
    lemma_join_all_push(s5, json_string(e.hostname));
    let s7 = s6.push(",\"device_serial\":"@);
    lemma_join_all_push(s6, ",\"device_serial\":"@);
    let s8 = s7.push(json_string(e.device_serial));
    lemma_join_all_push(s7, json_string(e.device_serial));
    let s9 = s8.push(",\"device_path\":"@);
    lemma_join_all_push(s8, ",\"device_path\":"@);
    let s10 = s9.push(json_string(e.device_path));
    lemma_join_all_push(s9, json_string(e.device_path));
    let s11 = s10.push(",\"device_size_bytes\":"@);
    lemma_join_all_push(s10, ",\"device_size_bytes\":"@);
    let s12 = s11.push(decimal(e.device_size_bytes as nat));
    lemma_join_all_push(s11, decimal(e.device_size_bytes as nat));
    let s13 = s12.push(",\"algorithm\":"@);
    lemma_join_all_push(s12, ",\"algorithm\":"@);
    let s14 = s13.push(json_string(e.algorithm));
    lemma_join_all_push(s13, json_string(e.algorithm));
    let s15 = s14.push(",\"pass_number\":"@);
    lemma_join_all_push(s14, ",\"pass_number\":"@);
    let s16 = s15.push(decimal(e.pass_number as nat));
    lemma_join_all_push(s15, decimal(e.pass_number as nat));
    let s17 = s16.push(",\"pass_pattern\":"@);
    lemma_join_all_push(s16, ",\"pass_pattern\":"@);
    let s18 = s17.push(json_string(e.pass_pattern));
    lemma_join_all_push(s17, json_string(e.pass_pattern));
    let s19 = s18.push(",\"status\":\""@);
    lemma_join_all_push(s18, ",\"status\":\""@);
    let s20 = s19.push(e.status.spec_variant_name());
    lemma_join_all_push(s19, e.status.spec_variant_name());
    let s21 = s20.push("\",\"error_detail\":"@);
    lemma_join_all_push(s20, "\",\"error_detail\":"@);
    let s22 = s21.push(detail_json(e.error_detail));
    lemma_join_all_push(s21, detail_json(e.error_detail));
    let s23 = s22.push(",\"hmac_signature\":"@);
    lemma_join_all_push(s22, ",\"hmac_signature\":"@);
    let s24 = s23.push(json_string(e.hmac_signature));
    lemma_join_all_push(s23, json_string(e.hmac_signature));
    let s25 = s24.push("}"@);
    lemma_join_all_push(s24, "}"@);
    assert(s25 =~= json_parts(e));
    assert(join_all(s0) == Seq::<char>::empty());
    assert(join_all(s25) =~= entry_json(e));
}

proof fn lemma_literal_split(l: Seq<char>, x: Seq<char>, y: Seq<char>)
    requires
        l + x == l + y,
    ensures
        x == y,
{
    assert(x =~= (l + x).subrange(l.len() as int, (l + x).len() as int));
    assert(y =~= (l + y).subrange(l.len() as int, (l + y).len() as int));
}

proof fn lemma_decimal_digits(n: nat)
    ensures
        all_digits(decimal(n)),
        digits_value(decimal(n)) == n,
    decreases n,
{
    if n >= 10 {
        lemma_decimal_digits(n / 10);
        let d = decimal(n);
        assert(d.drop_last() =~= decimal(n / 10));
        assert(forall|i: int| 0 <= i < d.len() - 1 ==> d[i] == decimal(n / 10)[i]);
        assert(d.last() == digit_char(n % 10));
        assert((digit_char(n % 10) as u32) == n % 10 + 48);
        assert((n / 10) * 10 + n % 10 == n);
        assert(digits_value(d) == digits_value(d.drop_last()) * 10 + ((d.last() as u32) - 48) as nat);
    } else {
        let d = decimal(n);
        assert(d.drop_last() =~= Seq::<char>::empty());
        assert((digit_char(n) as u32) == n + 48);
        assert(digits_value(d) == digits_value(d.drop_last()) * 10 + ((d.last() as u32) - 48) as nat);
    }
}

/// Two digit strings, each followed by a character that is not a digit,
/// split the same way.
proof fn lemma_digits_split(a: Seq<char>, x: Seq<char>, b: Seq<char>, y: Seq<char>)
    requires
        all_digits(a),
        all_digits(b),
        x.len() > 0 && !is_digit(x[0]),
        y.len() > 0 && !is_digit(y[0]),
        a + x == b + y,
    ensures
        a == b,
        x == y,
{
    if a.len() < b.len() {
        assert((a + x)[a.len() as int] == x[0]);
        assert((b + y)[a.len() as int] == b[a.len() as int]);
    } else if b.len() < a.len() {
        assert((b + y)[b.len() as int] == y[0]);
        assert((a + x)[b.len() as int] == a[b.len() as int]);
    } else {
        assert(a =~= (a + x).subrange(0, a.len() as int));
        assert(b =~= (b + y).subrange(0, b.len() as int));
        lemma_literal_split(a, x, y);
    }
}

proof fn lemma_decimal_split(n: nat, x: Seq<char>, m: nat, y: Seq<char>)
    requires
        x.len() > 0 && !is_digit(x[0]),
        y.len() > 0 && !is_digit(y[0]),
        decimal(n) + x == decimal(m) + y,
    ensures
        n == m,
        x == y,
{
    lemma_decimal_digits(n);
    lemma_decimal_digits(m);
    lemma_digits_split(decimal(n), x, decimal(m), y);
}

/// Whether a text holds no double quote.
pub open spec fn quote_free(s: Seq<char>) -> bool {
    forall|i: int| 0 <= i < s.len() ==> #[trigger] s[i] != '"'
}

proof fn lemma_quote_split(a: Seq<char>, x: Seq<char>, b: Seq<char>, y: Seq<char>)
    requires
        quote_free(a),
        quote_free(b),
        x.len() > 0 && x[0] == '"',
        y.len() > 0 && y[0] == '"',
        a + x == b + y,
    ensures
        a == b,
        x == y,
{
    if a.len() < b.len() {
        assert((a + x)[a.len() as int] == x[0]);
        assert((b + y)[a.len() as int] == b[a.len() as int]);
    } else if b.len() < a.len() {
        assert((b + y)[b.len() as int] == y[0]);
        assert((a + x)[b.len() as int] == a[b.len() as int]);
    } else {
        assert(a =~= (a + x).subrange(0, a.len() as int));
        assert(b =~= (b + y).subrange(0, b.len() as int));
        lemma_literal_split(a, x, y);
    }
}

proof fn lemma_status_split(s: LogStatus, x: Seq<char>, t: LogStatus, y: Seq<char>)
    requires
        x.len() > 0 && x[0] == '"',
        y.len() > 0 && y[0] == '"',
        s.spec_variant_name() + x == t.spec_variant_name() + y,
    ensures
        s == t,
        x == y,
{
    reveal_strlit("Started");
    reveal_strlit("PassComplete");
    reveal_strlit("Completed");
    reveal_strlit("Interrupted");
    reveal_strlit("Error");
    reveal_strlit("Cancelled");
    assert(quote_free(s.spec_variant_name()));
    assert(quote_free(t.spec_variant_name()));
    lemma_quote_split(s.spec_variant_name(), x, t.spec_variant_name(), y);
    if s != t {
        let a = s.spec_variant_name();
        let b = t.spec_variant_name();
        assert(a.len() != b.len() || a[0] != b[0] || a[1] != b[1]);
    }
}

proof fn lemma_detail_split(d: Option<Seq<char>>, x: Seq<char>, e: Option<Seq<char>>, y: Seq<char>)
    requires
        detail_json(d) + x == detail_json(e) + y,
    ensures
        d == e,
        x == y,
{
    reveal_strlit("null");
    match (d, e) {
        (Some(a), Some(b)) => lemma_json_string_split(a, x, b, y),
        (None, None) => lemma_literal_split("null"@, x, y),
        (Some(a), None) => {
            assert((detail_json(d) + x)[0] == '"');
            assert((detail_json(e) + y)[0] == 'n');
        },
        (None, Some(b)) => {
            assert((detail_json(d) + x)[0] == 'n');
            assert((detail_json(e) + y)[0] == '"');
        },
    }
}

/// What follows part `k` of a line.
pub open spec fn rest_from(p: Seq<Seq<char>>, k: int) -> Seq<char> {
    join_all(p.subrange(k, p.len() as int))
}

/// The line written for an entry determines the entry: two entries with
/// the same JSON line are the same entry, so reading a line back loses
/// nothing of what was written.
pub proof fn lemma_entry_json_is_injective(a: LogEntryView, b: LogEntryView)
    requires
        entry_json(a) == entry_json(b),
    ensures
        a == b,
{
    lemma_entry_json_parts(a);
    lemma_entry_json_parts(b);
    let pa = json_parts(a);
    let pb = json_parts(b);
    assert(pa.subrange(0, 25) =~= pa);
    assert(pb.subrange(0, 25) =~= pb);
    lemma_peel(pa, 0);
    lemma_peel(pb, 0);
    assert(pa[0] == pb[0]);
    lemma_literal_split(pa[0], rest_from(pa, 1), rest_from(pb, 1));
    lemma_peel(pa, 1);
    lemma_peel(pb, 1);
    lemma_json_string_split(a.timestamp, rest_from(pa, 2), b.timestamp, rest_from(pb, 2));
    lemma_peel(pa, 2);
    lemma_peel(pb, 2);
    assert(pa[2] == pb[2]);
    lemma_literal_split(pa[2], rest_from(pa, 3), rest_from(pb, 3));
    lemma_peel(pa, 3);
    lemma_peel(pb, 3);
    lemma_json_string_split(a.operator, rest_from(pa, 4), b.operator, rest_from(pb, 4));
    lemma_peel(pa, 4);
    lemma_peel(pb, 4);
    assert(pa[4] == pb[4]);
    lemma_literal_split(pa[4], rest_from(pa, 5), rest_from(pb, 5));
    lemma_peel(pa, 5);
    lemma_peel(pb, 5);
    lemma_json_string_split(a.hostname, rest_from(pa, 6), b.hostname, rest_from(pb, 6));
    lemma_peel(pa, 6);
    lemma_peel(pb, 6);
    assert(pa[6] == pb[6]);
    lemma_literal_split(pa[6], rest_from(pa, 7), rest_from(pb, 7));
    lemma_peel(pa, 7);
    lemma_peel(pb, 7);
    lemma_json_string_split(a.device_serial, rest_from(pa, 8), b.device_serial, rest_from(pb, 8));
    lemma_peel(pa, 8);
    lemma_peel(pb, 8);
    assert(pa[8] == pb[8]);
    lemma_literal_split(pa[8], rest_from(pa, 9), rest_from(pb, 9));
    lemma_peel(pa, 9);
    lemma_peel(pb, 9);
    lemma_json_string_split(a.device_path, rest_from(pa, 10), b.device_path, rest_from(pb, 10));
    lemma_peel(pa, 10);
    lemma_peel(pb, 10);
    assert(pa[10] == pb[10]);
    lemma_literal_split(pa[10], rest_from(pa, 11), rest_from(pb, 11));
    lemma_peel(pa, 11);
    lemma_peel(pb, 11);
    reveal_strlit(",\"algorithm\":");
    lemma_peel(pa, 12);
    lemma_peel(pb, 12);
    assert(rest_from(pa, 12)[0] == ',');
    assert(rest_from(pb, 12)[0] == ',');
    lemma_decimal_split(a.device_size_bytes as nat, rest_from(pa, 12), b.device_size_bytes as nat, rest_from(pb, 12));
    lemma_peel(pa, 12);
    lemma_peel(pb, 12);
    assert(pa[12] == pb[12]);
    lemma_literal_split(pa[12], rest_from(pa, 13), rest_from(pb, 13));
    lemma_peel(pa, 13);
    lemma_peel(pb, 13);
    lemma_json_string_split(a.algorithm, rest_from(pa, 14), b.algorithm, rest_from(pb, 14));
    lemma_peel(pa, 14);
    lemma_peel(pb, 14);
    assert(pa[14] == pb[14]);
    lemma_literal_split(pa[14], rest_from(pa, 15), rest_from(pb, 15));
    lemma_peel(pa, 15);
    lemma_peel(pb, 15);
    reveal_strlit(",\"pass_pattern\":");
    lemma_peel(pa, 16);
    lemma_peel(pb, 16);
    assert(rest_from(pa, 16)[0] == ',');
    assert(rest_from(pb, 16)[0] == ',');
    lemma_decimal_split(a.pass_number as nat, rest_from(pa, 16), b.pass_number as nat, rest_from(pb, 16));
    lemma_peel(pa, 16);
    lemma_peel(pb, 16);
    assert(pa[16] == pb[16]);
    lemma_literal_split(pa[16], rest_from(pa, 17), rest_from(pb, 17));
    lemma_peel(pa, 17);
    lemma_peel(pb, 17);
    lemma_json_string_split(a.pass_pattern, rest_from(pa, 18), b.pass_pattern, rest_from(pb, 18));
    lemma_peel(pa, 18);
    lemma_peel(pb, 18);
    assert(pa[18] == pb[18]);
    lemma_literal_split(pa[18], rest_from(pa, 19), rest_from(pb, 19));
    lemma_peel(pa, 19);
    lemma_peel(pb, 19);
    reveal_strlit("\",\"error_detail\":");
    lemma_peel(pa, 20);
    lemma_peel(pb, 20);
    assert(rest_from(pa, 20)[0] == '"');
    assert(rest_from(pb, 20)[0] == '"');
    lemma_status_split(a.status, rest_from(pa, 20), b.status, rest_from(pb, 20));
    lemma_peel(pa, 20);
    lemma_peel(pb, 20);
    assert(pa[20] == pb[20]);
    lemma_literal_split(pa[20], rest_from(pa, 21), rest_from(pb, 21));
    lemma_peel(pa, 21);
    lemma_peel(pb, 21);
    lemma_detail_split(a.error_detail, rest_from(pa, 22), b.error_detail, rest_from(pb, 22));
    lemma_peel(pa, 22);
    lemma_peel(pb, 22);
    assert(pa[22] == pb[22]);
    lemma_literal_split(pa[22], rest_from(pa, 23), rest_from(pb, 23));
    lemma_peel(pa, 23);
    lemma_peel(pb, 23);
    lemma_json_string_split(a.hmac_signature, rest_from(pa, 24), b.hmac_signature, rest_from(pb, 24));
    lemma_peel(pa, 24);
    lemma_peel(pb, 24);
    assert(pa[24] == pb[24]);
    lemma_literal_split(pa[24], rest_from(pa, 25), rest_from(pb, 25));
}

/// A signed entry cannot be altered without changing what is signed: two
/// entries with the same signature field but any other field different
/// have different payloads, so both signatures can only be valid if
/// HMAC-SHA256 gives two different payloads the same tag.
pub proof fn lemma_tampering_changes_the_payload(e: LogEntryView, f: LogEntryView)
    requires
        e.hmac_signature == f.hmac_signature,
        e != f,
    ensures
        signing_payload(e) != signing_payload(f),
{
    if signing_payload(e) == signing_payload(f) {
        broadcast use encode_utf8_decode_utf8;
        assert(decode_utf8(signing_payload(e)) == entry_json(unsigned(e)));
        assert(decode_utf8(signing_payload(f)) == entry_json(unsigned(f)));
        lemma_entry_json_is_injective(unsigned(e), unsigned(f));
        assert(e == LogEntryView { hmac_signature: e.hmac_signature, ..unsigned(e) });
        assert(f == LogEntryView { hmac_signature: f.hmac_signature, ..unsigned(f) });
    }
}

} // verus!
