//! Putting text together: numbers, lists and lines.

use crate::text::Text;
use vstd::prelude::*;

verus! {

// ── Numbers ──────────────────────────────────────────────────────────

/// The decimal digit `d`.
pub open spec fn digit(d: nat) -> Text {
    if d == 0 {
        "0"@
    } else if d == 1 {
        "1"@
    } else if d == 2 {
        "2"@
    } else if d == 3 {
        "3"@
    } else if d == 4 {
        "4"@
    } else if d == 5 {
        "5"@
    } else if d == 6 {
        "6"@
    } else if d == 7 {
        "7"@
    } else if d == 8 {
        "8"@
    } else {
        "9"@
    }
}

/// `n` in decimal notation.
pub open spec fn decimal(n: nat) -> Text
    decreases n,
{
    if n < 10 {
        digit(n)
    } else {
        decimal(n / 10) + digit(n % 10)
    }
}

/// `i` in decimal notation, with a leading minus sign where it is negative.
pub open spec fn signed(i: int) -> Text {
    if i < 0 {
        "-"@ + decimal((-i) as nat)
    } else {
        decimal(i as nat)
    }
}

fn digit_text(d: u64) -> (r: &'static str)
    requires
        d < 10,
    ensures
        r@ == digit(d as nat),
{
    if d == 0 {
        "0"
    } else if d == 1 {
        "1"
    } else if d == 2 {
        "2"
    } else if d == 3 {
        "3"
    } else if d == 4 {
        "4"
    } else if d == 5 {
        "5"
    } else if d == 6 {
        "6"
    } else if d == 7 {
        "7"
    } else if d == 8 {
        "8"
    } else {
        "9"
    }
}

/// `n` in decimal notation.
pub fn number(n: u64) -> (r: String)
    ensures
        r@ == decimal(n as nat),
    decreases n,
{
    if n < 10 {
        digit_text(n).to_owned()
    } else {
        let mut s = number(n / 10);
        s.append(digit_text(n % 10));
        s
    }
}

/// `i` in decimal notation, with a leading minus sign where it is negative.
pub fn signed_number(i: i64) -> (r: String)
    ensures
        r@ == signed(i as int),
{
    if i < 0 {
        let m: u64 = (-(i + 1)) as u64 + 1;
        let mut s = "-".to_owned();
        s.append(number(m).as_str());
        s
    } else {
        number(i as u64)
    }
}

// ── Lists ────────────────────────────────────────────────────────────

/// The texts of `parts`, in order, with `sep` between each two.
pub open spec fn joined(parts: Seq<Text>, sep: Text) -> Text
    decreases parts.len(),
{
    if parts.len() == 0 {
        Seq::empty()
    } else if parts.len() == 1 {
        parts[0]
    } else {
        joined(parts.drop_last(), sep) + sep + parts.last()
    }
}

/// The texts of `parts`, in order, with `sep` between each two.
pub fn join(parts: &Vec<String>, sep: &str) -> (r: String)
    ensures
        r@ == joined(parts.deep_view(), sep@),
{
    let ghost all = parts.deep_view();
    let mut out = String::new();
    let mut i: usize = 0;
    assert(all.take(0) =~= Seq::empty());
    while i < parts.len()
        invariant
            all == parts.deep_view(),
            i <= parts.len(),
            out@ == joined(all.take(i as int), sep@),
        decreases parts.len() - i,
    {
        assert(all.take(i + 1).drop_last() =~= all.take(i as int));
        assert(all.take(i + 1).last() == parts[i as int]@);
        if i > 0 {
            out.append(sep);
        }
        proof {
            if i == 0 {
                assert(out@ + parts[0]@ =~= parts[0]@);
            }
        }
        out.append(parts[i].as_str());
        i = i + 1;
    }
    assert(all.take(all.len() as int) =~= all);
    out
}

/// Adds `line` at the end of `lines`.
pub fn add_line(lines: &mut Vec<String>, line: String)
    ensures
        final(lines).deep_view() == old(lines).deep_view().push(line@),
{
    lines.push(line);
    assert(lines.deep_view() =~= old(lines).deep_view().push(line@));
}

/// Adds the lines of `more`, in order, at the end of `lines`.
pub fn add_lines(lines: &mut Vec<String>, more: Vec<String>)
    ensures
        final(lines).deep_view() == old(lines).deep_view() + more.deep_view(),
{
    let mut rest = more;
    lines.append(&mut rest);
    assert(lines.deep_view() =~= old(lines).deep_view() + more.deep_view());
}

// ── Lists ────────────────────────────────────────────────────────────

/// What stands in `s`, once each, in the order of the first place.
pub open spec fn distinct(s: Seq<Text>) -> Seq<Text>
    decreases s.len(),
{
    if s.len() == 0 {
        Seq::empty()
    } else if s.drop_last().contains(s.last()) {
        distinct(s.drop_last())
    } else {
        distinct(s.drop_last()).push(s.last())
    }
}

/// `distinct` keeps everything, and nothing twice.
pub proof fn lemma_distinct(s: Seq<Text>)
    ensures
        distinct(s).no_duplicates(),
        distinct(s).len() <= s.len(),
        forall|x: Text| #[trigger] distinct(s).contains(x) <==> s.contains(x),
    decreases s.len(),
{
    if s.len() > 0 {
        let init = s.drop_last();
        lemma_distinct(init);
        let d = distinct(s);
        assert(d.no_duplicates()) by {
            if !init.contains(s.last()) {
                assert(!distinct(init).contains(s.last()));
                assert forall|i: int, j: int| 0 <= i < j < d.len() implies d[i] != d[j] by {
                    if j == d.len() - 1 {
                        assert(distinct(init)[i] == d[i]);
                    }
                }
            }
        }
        assert forall|x: Text| s.contains(x) implies #[trigger] d.contains(x) by {
            if init.contains(x) {
                assert(distinct(init).contains(x));
                let k = choose|k: int| 0 <= k < distinct(init).len() && distinct(init)[k] == x;
                assert(d[k] == x);
            } else {
                let k = choose|k: int| 0 <= k < s.len() && s[k] == x;
                if k < init.len() {
                    assert(init[k] == x);
                }
                assert(s.last() == x);
                assert(d[d.len() - 1] == x);
            }
        }
        assert forall|x: Text| #[trigger] d.contains(x) implies s.contains(x) by {
            let k = choose|k: int| 0 <= k < d.len() && d[k] == x;
            if k < distinct(init).len() {
                assert(distinct(init)[k] == x);
                assert(distinct(init).contains(x));
                let j = choose|j: int| 0 <= j < init.len() && init[j] == x;
                assert(s[j] == x);
            } else {
                assert(s[s.len() - 1] == x);
            }
        }
    }
}

} // verus!
