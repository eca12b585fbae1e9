//! Ordering audit entries newest first.

use vstd::prelude::*;
use crate::audit::entry::{LogEntry, LogEntryView, entries_view};
use crate::text::chars_of;

verus! {

/// `a` sorts before `b` (`String`'s order: code point by code point, a
/// prefix first).
pub open spec fn chars_lt(a: Seq<char>, b: Seq<char>) -> bool
    decreases a.len(),
{
    if a.len() == 0 {
        b.len() > 0
    } else if b.len() == 0 {
        false
    } else if a[0] != b[0] {
        (a[0] as u32) < (b[0] as u32)
    } else {
        chars_lt(a.drop_first(), b.drop_first())
    }
}

/// The order is strict and total: exactly one of a < b, a == b, b < a.
pub proof fn lemma_chars_lt_trichotomy(a: Seq<char>, b: Seq<char>)
    ensures
        chars_lt(a, b) || a == b || chars_lt(b, a),
        !(chars_lt(a, b) && chars_lt(b, a)),
        !chars_lt(a, a),
    decreases a.len(),
{
    if a.len() > 0 && b.len() > 0 {
        lemma_chars_lt_trichotomy(a.drop_first(), b.drop_first());
        if a[0] == b[0] && a.drop_first() == b.drop_first() {
            assert forall|i: int| 0 <= i < a.len() implies a[i] == b[i] by {
                if i > 0 {
                    assert(a[i] == a.drop_first()[i - 1]);
                    assert(b[i] == b.drop_first()[i - 1]);
                }
            }
            assert(a =~= b);
        }
        if a[0] != b[0] {
            vstd::utf8::char_u32_cast(a[0], a[0] as u32);
            vstd::utf8::char_u32_cast(b[0], b[0] as u32);
            assert((a[0] as u32) != (b[0] as u32));
        }
    } else if a.len() == 0 && b.len() == 0 {
        assert(a =~= b);
    }
    if a.len() > 0 {
        lemma_chars_lt_trichotomy(a.drop_first(), a.drop_first());
    }
}

/// The order is transitive.
pub proof fn lemma_chars_lt_transitive(a: Seq<char>, b: Seq<char>, c: Seq<char>)
    requires
        chars_lt(a, b),
        chars_lt(b, c),
    ensures
        chars_lt(a, c),
    decreases a.len(),
{
    if a.len() > 0 && b.len() > 0 && c.len() > 0 {
        if a[0] == b[0] && b[0] == c[0] {
            lemma_chars_lt_transitive(a.drop_first(), b.drop_first(), c.drop_first());
        }
    }
}

/// Compares two character sequences.
fn chars_less(a: &Vec<char>, b: &Vec<char>) -> (r: bool)
    ensures
        r == chars_lt(a@, b@),
{
    let mut i: usize = 0;
    assert(a@.subrange(0, a@.len() as int) =~= a@);
    assert(b@.subrange(0, b@.len() as int) =~= b@);
    while i < a.len() && i < b.len() && a[i] == b[i]
        invariant
            i <= a@.len(),
            i <= b@.len(),
            chars_lt(a@, b@) == chars_lt(a@.subrange(i as int, a@.len() as int), b@.subrange(i as int, b@.len() as int)),
        decreases a@.len() - i,
    {
        assert(a@.subrange(i as int, a@.len() as int).drop_first() =~= a@.subrange(i + 1, a@.len() as int));
        assert(b@.subrange(i as int, b@.len() as int).drop_first() =~= b@.subrange(i + 1, b@.len() as int));
        i = i + 1;
    }
    if i == a.len() {
        i < b.len()
    } else if i == b.len() {
        false
    } else {
        (a[i] as u32) < (b[i] as u32)
    }
}

/// Entry `i` may stand before entry `j`: it is newer (a later time stamp),
/// or equally new and earlier in the input (the sort is stable).
pub open spec fn may_precede(e: Seq<LogEntryView>, i: int, j: int) -> bool {
    chars_lt(e[j].timestamp, e[i].timestamp) || (e[i].timestamp == e[j].timestamp && i < j)
}

/// `order` lists every index of `e` once, newest entry first, ties in input order.
pub open spec fn is_newest_first(e: Seq<LogEntryView>, order: Seq<int>) -> bool {
    &&& order.len() == e.len()
    &&& forall|k: int| 0 <= k < order.len() ==> 0 <= #[trigger] order[k] < e.len()
    &&& forall|a: int, b: int| 0 <= a < b < order.len() ==> order[a] != order[b]
    &&& forall|a: int, b: int| 0 <= a < b < order.len() ==> may_precede(e, order[a], order[b])
}

/// The order in which the entries are listed (`sort_by` on the time stamp,
/// descending, stable).
pub fn newest_first_order(entries: &Vec<LogEntry>) -> (order: Vec<usize>)
    ensures
        is_newest_first(entries_view(entries@), order@.map_values(|i: usize| i as int)),
{
    let ghost e = entries_view(entries@);
    let mut keys: Vec<Vec<char>> = Vec::new();
    let mut k: usize = 0;
    while k < entries.len()
        invariant
            k <= entries.len(),
            e == entries_view(entries@),
            keys@.len() == k,
            forall|j: int| 0 <= j < k ==> (#[trigger] keys@[j])@ == e[j].timestamp,
        decreases entries.len() - k,
    {
        keys.push(chars_of(entries[k].timestamp.as_str()));
        k = k + 1;
    }
    let mut order: Vec<usize> = Vec::new();
    let mut k: usize = 0;
    while k < entries.len()
        invariant
            k <= entries.len(),
            e == entries_view(entries@),
            keys@.len() == entries@.len(),
            forall|j: int| 0 <= j < keys@.len() ==> (#[trigger] keys@[j])@ == e[j].timestamp,
            order@.len() == k,
            forall|a: int| 0 <= a < order@.len() ==> (#[trigger] order@[a]) < k,
            forall|a: int, b: int| 0 <= a < b < order@.len() ==> order@[a] != order@[b],
            forall|a: int, b: int|
                0 <= a < b < order@.len() ==> may_precede(e, order@[a] as int, order@[b] as int),
        decreases entries.len() - k,
    {
        let mut p: usize = 0;
        while p < order.len() && !chars_less(&keys[order[p]], &keys[k])
            invariant
                p <= order@.len(),
                k < keys@.len(),
                keys@.len() == entries@.len(),
                e == entries_view(entries@),
                forall|j: int| 0 <= j < keys@.len() ==> (#[trigger] keys@[j])@ == e[j].timestamp,
                forall|a: int| 0 <= a < order@.len() ==> (#[trigger] order@[a]) < k,
                forall|a: int| 0 <= a < p ==> !chars_lt(e[order@[a] as int].timestamp, e[k as int].timestamp),
            decreases order@.len() - p,
        {
            p = p + 1;
        }
        let ghost old_order = order@;
        proof {
            assert forall|a: int| 0 <= a < p implies may_precede(e, old_order[a] as int, k as int) by {
                lemma_chars_lt_trichotomy(e[old_order[a] as int].timestamp, e[k as int].timestamp);
            }
            assert forall|b: int| p <= b < old_order.len() implies may_precede(e, k as int, old_order[b] as int) by {
                let kp = e[old_order[p as int] as int].timestamp;
                let kb = e[old_order[b] as int].timestamp;
                let kk = e[k as int].timestamp;
                assert(chars_lt(kp, kk));
                if b > p {
                    assert(may_precede(e, old_order[p as int] as int, old_order[b] as int));
                    if chars_lt(kb, kp) {
                        lemma_chars_lt_transitive(kb, kp, kk);
                    }
                }
            }
        }
        order.insert(p, k);
        proof {
            let n = order@;
            assert forall|a: int, b: int| 0 <= a < b < n.len() implies n[a] != n[b] by {
                if a < p && b > p {
                    assert(n[b] == old_order[b - 1]);
                }
            }
            assert forall|a: int, b: int|
                0 <= a < b < n.len() implies may_precede(e, n[a] as int, n[b] as int) by {
                if b < p {
                    assert(n[a] == old_order[a] && n[b] == old_order[b]);
                } else if b == p {
                    assert(n[a] == old_order[a]);
                } else if a == p {
                    assert(n[b] == old_order[b - 1]);
                } else if a < p {
                    assert(n[a] == old_order[a] && n[b] == old_order[b - 1]);
                } else {
                    assert(n[a] == old_order[a - 1] && n[b] == old_order[b - 1]);
                }
            }
        }
        k = k + 1;
    }
    proof {
        let o = order@.map_values(|i: usize| i as int);
        assert forall|a: int, b: int| 0 <= a < b < o.len() implies o[a] != o[b] by {
            assert(order@[a] != order@[b]);
        }
    }
    order
}

/// The entries, newest first (ties keep their order).
pub fn sort_newest_first(entries: &Vec<LogEntry>) -> (r: Vec<LogEntry>)
    ensures
        exists|order: Seq<int>|
            is_newest_first(entries_view(entries@), order) && entries_view(r@) == order.map_values(
                |i: int| entries_view(entries@)[i],
            ),
{
    let order = newest_first_order(entries);
    let ghost o = order@.map_values(|i: usize| i as int);
    let ghost e = entries_view(entries@);
    let mut r: Vec<LogEntry> = Vec::new();
    let mut k: usize = 0;
    while k < order.len()
        invariant
            k <= order@.len(),
            o == order@.map_values(|i: usize| i as int),
            e == entries_view(entries@),
            is_newest_first(e, o),
            entries_view(r@) == o.subrange(0, k as int).map_values(|i: int| e[i]),
        decreases order@.len() - k,
    {
        let idx = order[k];
        assert(o[k as int] == idx as int);
        let x = entries[idx].copy();
        let ghost old_r = r@;
        r.push(x);
        assert(entries_view(r@) =~= entries_view(old_r).push(x@));
        assert(o.subrange(0, k + 1).map_values(|i: int| e[i]) =~= o.subrange(0, k as int).map_values(
            |i: int| e[i],
        ).push(e[idx as int]));
        k = k + 1;
    }
    assert(o.subrange(0, order@.len() as int) =~= o);
    r
}

} // verus!
