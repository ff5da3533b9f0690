//! Text as a sequence of characters: the mathematical operations that the
//! contracts of this crate are written with, and the executable functions
//! that carry them out on `&str`.

use vstd::prelude::*;

verus! {

/// What a `&str` or a `String` holds, character by character.
pub type Text = Seq<char>;

// ── Searching ────────────────────────────────────────────────────────

/// `p` stands in `s` at position `i`.
pub open spec fn occurs_at(s: Text, p: Text, i: int) -> bool {
    0 <= i && i + p.len() <= s.len() && s.subrange(i, i + p.len()) == p
}

/// `p` stands somewhere in `s`.
pub open spec fn holds(s: Text, p: Text) -> bool {
    exists|i: int| occurs_at(s, p, i)
}

/// `s` begins with `p`.
pub open spec fn begins(s: Text, p: Text) -> bool {
    occurs_at(s, p, 0)
}

/// `s` ends with `p`.
pub open spec fn ends(s: Text, p: Text) -> bool {
    occurs_at(s, p, s.len() - p.len())
}

/// The first position at or after `i` at which `p` stands in `s`.
pub open spec fn find_from(s: Text, p: Text, i: int) -> Option<int>
    decreases s.len() - i + 1,
{
    if i + p.len() > s.len() {
        None
    } else if occurs_at(s, p, i) {
        Some(i)
    } else {
        find_from(s, p, i + 1)
    }
}

/// The first position at which `p` stands in `s`.
pub open spec fn find(s: Text, p: Text) -> Option<int> {
    find_from(s, p, 0)
}

/// The last position at or before `i` at which `p` stands in `s`.
pub open spec fn find_back(s: Text, p: Text, i: int) -> Option<int>
    decreases i + 1,
{
    if i < 0 {
        None
    } else if occurs_at(s, p, i) {
        Some(i)
    } else {
        find_back(s, p, i - 1)
    }
}

/// What follows the last `p` in `s`; all of `s` where there is none.
pub open spec fn after_last(s: Text, p: Text) -> Text {
    match find_back(s, p, s.len() - p.len()) {
        Some(i) => s.skip(i + p.len()),
        None => s,
    }
}

/// `find_from` gives the least position at or after `i`, and none exactly
/// where there is no such position.
pub proof fn lemma_find_from(s: Text, p: Text, i: int)
    requires
        0 <= i,
    ensures
        match find_from(s, p, i) {
            Some(k) => i <= k && occurs_at(s, p, k) && forall|j: int|
                i <= j < k ==> !occurs_at(s, p, j),
            None => forall|j: int| i <= j ==> !occurs_at(s, p, j),
        },
    decreases s.len() - i + 1,
{
    if i + p.len() <= s.len() && !occurs_at(s, p, i) {
        lemma_find_from(s, p, i + 1);
    }
}

/// A text holds itself.
pub broadcast proof fn lemma_holds_itself(s: Text)
    ensures
        #[trigger] holds(s, s),
{
    assert(s.subrange(0, s.len() as int) =~= s);
    assert(occurs_at(s, s, 0));
}

/// What the first of two texts holds, both together hold.
pub broadcast proof fn lemma_holds_before(a: Text, b: Text, p: Text)
    ensures
        holds(a, p) ==> #[trigger] holds(a + b, p),
{
    if holds(a, p) {
        let i = choose|i: int| occurs_at(a, p, i);
        assert((a + b).subrange(i, i + p.len()) =~= a.subrange(i, i + p.len()));
        assert(occurs_at(a + b, p, i));
    }
}

/// What the second of two texts holds, both together hold.
pub broadcast proof fn lemma_holds_after(a: Text, b: Text, p: Text)
    ensures
        holds(b, p) ==> #[trigger] holds(a + b, p),
{
    if holds(b, p) {
        let i = choose|i: int| occurs_at(b, p, i);
        let j = a.len() + i;
        assert((a + b).subrange(j, j + p.len()) =~= b.subrange(i, i + p.len()));
        assert(occurs_at(a + b, p, j));
    }
}

/// What stands side by side in a text, the text holds.
pub broadcast proof fn lemma_holds_pair(x: Text, a: Text, b: Text)
    ensures
        #[trigger] holds(x + a + b, a + b),
{
    assert(x + a + b =~= x + (a + b));
    lemma_holds_itself(a + b);
    lemma_holds_after(x, a + b, a + b);
}

pub broadcast proof fn lemma_holds_triple(x: Text, a: Text, b: Text, c: Text)
    ensures
        #[trigger] holds(x + a + b + c, a + b + c),
{
    assert(x + a + b + c =~= x + (a + b + c));
    lemma_holds_itself(a + b + c);
    lemma_holds_after(x, a + b + c, a + b + c);
}

/// A text begins and ends with itself.
pub broadcast proof fn lemma_begins_itself(s: Text)
    ensures
        #[trigger] begins(s, s),
{
    assert(s.subrange(0, s.len() as int) =~= s);
}

pub broadcast proof fn lemma_ends_itself(s: Text)
    ensures
        #[trigger] ends(s, s),
{
    assert(s.subrange(0, s.len() as int) =~= s);
}

/// Two texts together begin with what the first begins with.
pub broadcast proof fn lemma_begins_before(a: Text, b: Text, p: Text)
    ensures
        begins(a, p) ==> #[trigger] begins(a + b, p),
{
    if begins(a, p) {
        assert((a + b).subrange(0, p.len() as int) =~= a.subrange(0, p.len() as int));
    }
}

/// Two texts together end with what the second ends with.
pub broadcast proof fn lemma_ends_after(a: Text, b: Text, p: Text)
    ensures
        ends(b, p) ==> #[trigger] ends(a + b, p),
{
    if ends(b, p) {
        let i = b.len() - p.len();
        assert((a + b).subrange(a.len() + i, a.len() + i + p.len()) =~= b.subrange(
            i,
            i + p.len(),
        ));
    }
}

pub broadcast group group_holds {
    lemma_holds_itself,
    lemma_holds_before,
    lemma_holds_after,
    lemma_holds_pair,
    lemma_holds_triple,
    lemma_begins_itself,
    lemma_begins_before,
    lemma_ends_itself,
    lemma_ends_after,
}

/// What is held by what a text holds, the text holds.
pub proof fn lemma_holds_transitive(s: Text, t: Text, p: Text)
    requires
        holds(s, t),
        holds(t, p),
    ensures
        holds(s, p),
{
    let i = choose|i: int| occurs_at(s, t, i);
    let j = choose|j: int| occurs_at(t, p, j);
    assert(s.subrange(i + j, i + j + p.len()) =~= t.subrange(j, j + p.len()));
    assert(occurs_at(s, p, i + j));
}

/// The characters of `s`.
pub fn chars_of(s: &str) -> (r: Vec<char>)
    ensures
        r@ == s@,
{
    let mut out: Vec<char> = Vec::new();
    for c in it: s.chars()
        invariant
            it.seq() == s@,
            out@ == s@.take(it.index() as int),
    {
        out.push(c);
    }
    out
}

/// Whether the two hold the same characters.
pub fn same(a: &str, b: &str) -> (r: bool)
    ensures
        r == (a@ == b@),
{
    a.to_owned() == b.to_owned()
}

/// Whether `p` stands in `s` at position `i`.
pub fn stands_at(s: &Vec<char>, p: &Vec<char>, i: usize) -> (r: bool)
    ensures
        r == occurs_at(s@, p@, i as int),
{
    if p.len() > s.len() || i > s.len() - p.len() {
        return false;
    }
    let mut k: usize = 0;
    while k < p.len()
        invariant
            k <= p.len(),
            i + p.len() <= s.len(),
            forall|j: int| 0 <= j < k ==> s@[i + j] == p@[j],
        decreases p.len() - k,
    {
        if s[i + k] != p[k] {
            assert(s@.subrange(i as int, i + p.len())[k as int] != p@[k as int]);
            return false;
        }
        k = k + 1;
    }
    assert(s@.subrange(i as int, i + p.len()) =~= p@);
    true
}

/// The first position at or after `from` at which `p` stands in `s`.
pub fn position_from(s: &Vec<char>, p: &Vec<char>, from: usize) -> (r: Option<usize>)
    ensures
        r matches Some(i) ==> find_from(s@, p@, from as int) == Some(i as int),
        r is None ==> find_from(s@, p@, from as int) is None,
{
    let mut i: usize = from;
    while p.len() <= s.len() && i <= s.len() - p.len()
        invariant
            find_from(s@, p@, from as int) == find_from(s@, p@, i as int),
        decreases s.len() - i + 1,
    {
        if stands_at(s, p, i) {
            return Some(i);
        }
        proof {
            if p@.len() == 0 {
                assert(s@.subrange(i as int, i as int) =~= p@);
            }
        }
        i = i + 1;
    }
    None
}

/// Whether `p` stands somewhere in `s`.
pub fn contains(s: &str, p: &str) -> (r: bool)
    ensures
        r == holds(s@, p@),
{
    let cs = chars_of(s);
    let ps = chars_of(p);
    proof {
        lemma_find_from(s@, p@, 0);
    }
    position_from(&cs, &ps, 0).is_some()
}

/// Whether `s` begins with `p`.
pub fn starts_with(s: &str, p: &str) -> (r: bool)
    ensures
        r == begins(s@, p@),
{
    stands_at(&chars_of(s), &chars_of(p), 0)
}

/// What follows the last `p` in `s`; all of `s` where there is none.
pub fn tail_after<'a>(s: &'a str, p: &str) -> (r: &'a str)
    ensures
        r@ == after_last(s@, p@),
{
    let cs = chars_of(s);
    let ps = chars_of(p);
    if ps.len() > cs.len() {
        return s;
    }
    let mut i: usize = cs.len() - ps.len();
    loop
        invariant
            cs@ == s@,
            ps@ == p@,
            i + ps.len() <= cs.len(),
            find_back(s@, p@, s@.len() - p@.len()) == find_back(s@, p@, i as int),
        decreases i,
    {
        if stands_at(&cs, &ps, i) {
            let r = s.substring_char(i + ps.len(), cs.len());
            assert(s@.subrange(i + ps.len(), cs.len() as int) =~= s@.skip(i + p@.len()));
            return r;
        }
        if i == 0 {
            assert(find_back(s@, p@, -1) is None);
            return s;
        }
        i = i - 1;
    }
}

// ── Trimming ─────────────────────────────────────────────────────────

/// `s` with every leading `p` taken off.
pub open spec fn strip_starts(s: Text, p: Text) -> Text
    decreases s.len(),
{
    if p.len() > 0 && begins(s, p) {
        strip_starts(s.skip(p.len() as int), p)
    } else {
        s
    }
}

/// `s` with every trailing `p` taken off.
pub open spec fn strip_ends(s: Text, p: Text) -> Text
    decreases s.len(),
{
    if p.len() > 0 && ends(s, p) {
        strip_ends(s.take(s.len() - p.len()), p)
    } else {
        s
    }
}

/// The characters with the Unicode property `White_Space`.
pub open spec fn is_space(c: char) -> bool {
    ||| '\u{9}' <= c <= '\u{d}'
    ||| c == '\u{20}'
    ||| c == '\u{85}'
    ||| c == '\u{a0}'
    ||| c == '\u{1680}'
    ||| '\u{2000}' <= c <= '\u{200a}'
    ||| c == '\u{2028}'
    ||| c == '\u{2029}'
    ||| c == '\u{202f}'
    ||| c == '\u{205f}'
    ||| c == '\u{3000}'
}

/// The first position at or after `i` whose character is no white space, or
/// the end of `s`.
pub open spec fn skip_space(s: Text, i: int) -> int
    decreases s.len() - i,
{
    if 0 <= i < s.len() && is_space(s[i]) {
        skip_space(s, i + 1)
    } else {
        i
    }
}

/// The first position at or after `i` whose character is white space, or
/// the end of `s`.
pub open spec fn skip_word(s: Text, i: int) -> int
    decreases s.len() - i,
{
    if 0 <= i < s.len() && !is_space(s[i]) {
        skip_word(s, i + 1)
    } else {
        i
    }
}

/// The end of what is left of the first `i` characters of `s` once trailing
/// white space is taken off.
pub open spec fn back_space(s: Text, i: int) -> int
    decreases i,
{
    if 0 < i <= s.len() && is_space(s[i - 1]) {
        back_space(s, i - 1)
    } else {
        i
    }
}

/// `s` without leading and trailing white space.
pub open spec fn trimmed(s: Text) -> Text {
    let a = skip_space(s, 0);
    let b = back_space(s, s.len() as int);
    if a < b {
        s.subrange(a, b)
    } else {
        Seq::empty()
    }
}

/// `s` without trailing white space.
pub open spec fn trimmed_end(s: Text) -> Text {
    s.take(back_space(s, s.len() as int))
}

/// The maximal runs of characters of `s` from position `i` on that are no
/// white space.
pub open spec fn words_from(s: Text, i: int) -> Seq<Text>
    decreases s.len() - i,
{
    let a = skip_space(s, i);
    let b = skip_word(s, a);
    if 0 <= i <= a && a < b <= s.len() {
        seq![s.subrange(a, b)] + words_from(s, b)
    } else {
        Seq::empty()
    }
}

/// The words of `s`.
pub open spec fn words(s: Text) -> Seq<Text> {
    words_from(s, 0)
}

proof fn lemma_skips(s: Text, i: int)
    requires
        0 <= i <= s.len(),
    ensures
        i <= skip_space(s, i) <= s.len(),
        i <= skip_word(s, i) <= s.len(),
        skip_space(s, i) < s.len() ==> !is_space(s[skip_space(s, i)]),
        skip_word(s, i) < s.len() ==> is_space(s[skip_word(s, i)]),
    decreases s.len() - i,
{
    if i < s.len() {
        lemma_skips(s, i + 1);
    }
}

proof fn lemma_back(s: Text, i: int)
    requires
        0 <= i <= s.len(),
    ensures
        0 <= back_space(s, i) <= i,
    decreases i,
{
    if 0 < i && is_space(s[i - 1]) {
        lemma_back(s, i - 1);
    }
}

/// `s` with every leading `p` taken off.
pub fn trim_start_matches<'a>(s: &'a str, p: &str) -> (r: &'a str)
    ensures
        r@ == strip_starts(s@, p@),
{
    let cs = chars_of(s);
    let ps = chars_of(p);
    let mut at: usize = 0;
    assert(s@.skip(0) =~= s@);
    while ps.len() > 0 && stands_at(&cs, &ps, at)
        invariant
            cs@ == s@,
            ps@ == p@,
            at <= cs.len(),
            strip_starts(s@, p@) == strip_starts(s@.skip(at as int), p@),
        decreases cs.len() - at,
    {
        proof {
            let rest = s@.skip(at as int);
            assert(rest.subrange(0, p@.len() as int) =~= s@.subrange(at as int, at + p@.len()));
            assert(rest.skip(p@.len() as int) =~= s@.skip(at + p@.len()));
        }
        at = at + ps.len();
    }
    proof {
        let rest = s@.skip(at as int);
        if p@.len() > 0 && begins(rest, p@) {
            assert(rest.subrange(0, p@.len() as int) =~= s@.subrange(at as int, at + p@.len()));
        }
        assert(s@.subrange(at as int, s@.len() as int) =~= rest);
    }
    s.substring_char(at, cs.len())
}

/// `s` with every trailing `p` taken off.
pub fn trim_end_matches<'a>(s: &'a str, p: &str) -> (r: &'a str)
    ensures
        r@ == strip_ends(s@, p@),
{
    let cs = chars_of(s);
    let ps = chars_of(p);
    let mut end: usize = cs.len();
    assert(s@.take(s@.len() as int) =~= s@);
    while ps.len() > 0 && ps.len() <= end && stands_at(&cs, &ps, end - ps.len())
        invariant
            cs@ == s@,
            ps@ == p@,
            end <= cs.len(),
            strip_ends(s@, p@) == strip_ends(s@.take(end as int), p@),
        decreases end,
    {
        proof {
            let rest = s@.take(end as int);
            assert(rest.subrange(end - p@.len(), end as int) =~= s@.subrange(
                end - p@.len(),
                end as int,
            ));
            assert(rest.take(end - p@.len()) =~= s@.take(end - p@.len()));
        }
        end = end - ps.len();
    }
    proof {
        let rest = s@.take(end as int);
        if p@.len() > 0 && ends(rest, p@) {
            assert(rest.subrange(end - p@.len(), end as int) =~= s@.subrange(
                end - p@.len(),
                end as int,
            ));
        }
        assert(s@.subrange(0, end as int) =~= rest);
    }
    s.substring_char(0, end)
}

/// Whether `c` has the Unicode property `White_Space`.
pub fn space(c: char) -> (r: bool)
    ensures
        r == is_space(c),
{
    ('\u{9}' <= c && c <= '\u{d}') || c == '\u{20}' || c == '\u{85}' || c == '\u{a0}' || c
        == '\u{1680}' || ('\u{2000}' <= c && c <= '\u{200a}') || c == '\u{2028}' || c == '\u{2029}'
        || c == '\u{202f}' || c == '\u{205f}' || c == '\u{3000}'
}

/// The first position at or after `from` whose character is no white space.
fn past_space(s: &Vec<char>, from: usize) -> (r: usize)
    requires
        from <= s.len(),
    ensures
        r == skip_space(s@, from as int),
        from <= r <= s.len(),
{
    let mut i: usize = from;
    while i < s.len() && space(s[i])
        invariant
            from <= i <= s.len(),
            skip_space(s@, from as int) == skip_space(s@, i as int),
        decreases s.len() - i,
    {
        i = i + 1;
    }
    i
}

/// The end of what is left of `s` once trailing white space is taken off.
fn before_space(s: &Vec<char>) -> (r: usize)
    ensures
        r == back_space(s@, s@.len() as int),
        r <= s.len(),
{
    let mut i: usize = s.len();
    while i > 0 && space(s[i - 1])
        invariant
            i <= s.len(),
            back_space(s@, s@.len() as int) == back_space(s@, i as int),
        decreases i,
    {
        i = i - 1;
    }
    i
}

/// `s` without leading and trailing white space.
pub fn trim<'a>(s: &'a str) -> (r: &'a str)
    ensures
        r@ == trimmed(s@),
{
    let cs = chars_of(s);
    let a = past_space(&cs, 0);
    let b = before_space(&cs);
    if a < b {
        s.substring_char(a, b)
    } else {
        let r = s.substring_char(0, 0);
        assert(r@ =~= Seq::<char>::empty());
        r
    }
}

/// `s` without trailing white space.
pub fn trim_end<'a>(s: &'a str) -> (r: &'a str)
    ensures
        r@ == trimmed_end(s@),
{
    let cs = chars_of(s);
    let b = before_space(&cs);
    assert(s@.subrange(0, b as int) =~= s@.take(b as int));
    s.substring_char(0, b)
}

/// The words of `s`, in order.
pub fn split_whitespace(s: &str) -> (r: Vec<String>)
    ensures
        r.deep_view() == words(s@),
{
    let cs = chars_of(s);
    let mut out: Vec<String> = Vec::new();
    let mut i: usize = 0;
    assert(out.deep_view() + words_from(s@, 0) =~= words(s@));
    loop
        invariant
            cs@ == s@,
            i <= cs.len(),
            words(s@) == out.deep_view() + words_from(s@, i as int),
        decreases cs.len() - i,
    {
        let a = past_space(&cs, i);
        proof {
            lemma_skips(s@, i as int);
            lemma_skips(s@, a as int);
        }
        if a == cs.len() {
            assert(words_from(s@, i as int) =~= Seq::empty());
            assert(out.deep_view() + words_from(s@, i as int) =~= out.deep_view());
            return out;
        }
        let mut b: usize = a;
        while b < cs.len() && !space(cs[b])
            invariant
                cs@ == s@,
                a <= b <= cs.len(),
                skip_word(s@, a as int) == skip_word(s@, b as int),
            decreases cs.len() - b,
        {
            b = b + 1;
        }
        let ghost before = out.deep_view();
        out.push(s.substring_char(a, b).to_owned());
        proof {
            let w = s@.subrange(a as int, b as int);
            assert(out.deep_view() =~= before.push(w));
            assert(before + (seq![w] + words_from(s@, b as int)) =~= before.push(w) + words_from(
                s@,
                b as int,
            ));
        }
        i = b;
    }
}

// ── Splitting and replacing ──────────────────────────────────────────

/// The pieces of `s` from position `i` on between which `sep` stands.
pub open spec fn pieces_from(s: Text, sep: Text, i: int) -> Seq<Text>
    decreases s.len() - i,
{
    match find_from(s, sep, i) {
        Some(j) => if sep.len() > 0 && 0 <= i <= j && j + sep.len() <= s.len() {
            seq![s.subrange(i, j)] + pieces_from(s, sep, j + sep.len())
        } else {
            seq![s.skip(i)]
        },
        None => seq![s.skip(i)],
    }
}

/// The pieces of `s` between which `sep` stands.
pub open spec fn pieces(s: Text, sep: Text) -> Seq<Text> {
    pieces_from(s, sep, 0)
}

/// `s` with each `from` replaced by `to`.
pub open spec fn replaced(s: Text, from: char, to: Text) -> Text
    decreases s.len(),
{
    if s.len() == 0 {
        Seq::empty()
    } else {
        replaced(s.drop_last(), from, to) + (if s.last() == from {
            to
        } else {
            seq![s.last()]
        })
    }
}

/// The pieces of `s` between which `sep` stands, in order.
pub fn split(s: &str, sep: &str) -> (r: Vec<String>)
    requires
        sep@.len() > 0,
    ensures
        r.deep_view() == pieces(s@, sep@),
{
    let cs = chars_of(s);
    let ps = chars_of(sep);
    let mut out: Vec<String> = Vec::new();
    let mut i: usize = 0;
    assert(out.deep_view() + pieces_from(s@, sep@, 0) =~= pieces(s@, sep@));
    loop
        invariant
            cs@ == s@,
            ps@ == sep@,
            sep@.len() > 0,
            i <= cs.len(),
            pieces(s@, sep@) == out.deep_view() + pieces_from(s@, sep@, i as int),
        decreases cs.len() - i,
    {
        let ghost before = out.deep_view();
        proof {
            lemma_find_from(s@, sep@, i as int);
        }
        match position_from(&cs, &ps, i) {
            Some(j) => {
                out.push(s.substring_char(i, j).to_owned());
                proof {
                    let w = s@.subrange(i as int, j as int);
                    let rest = pieces_from(s@, sep@, j + sep@.len());
                    assert(out.deep_view() =~= before.push(w));
                    assert(before + (seq![w] + rest) =~= before.push(w) + rest);
                }
                i = j + ps.len();
            },
            None => {
                out.push(s.substring_char(i, cs.len()).to_owned());
                proof {
                    let w = s@.subrange(i as int, s@.len() as int);
                    assert(w =~= s@.skip(i as int));
                    assert(out.deep_view() =~= before + seq![w]);
                }
                return out;
            },
        }
    }
}

/// `s` with each `from` replaced by `to`.
pub fn replace(s: &str, from: char, to: &str) -> (r: String)
    ensures
        r@ == replaced(s@, from, to@),
{
    let cs = chars_of(s);
    let mut out = String::new();
    let mut i: usize = 0;
    assert(s@.take(0) =~= Seq::empty());
    while i < cs.len()
        invariant
            cs@ == s@,
            i <= cs.len(),
            out@ == replaced(s@.take(i as int), from, to@),
        decreases cs.len() - i,
    {
        assert(s@.take(i + 1).drop_last() =~= s@.take(i as int));
        if cs[i] == from {
            out.append(to);
        } else {
            assert(s@.subrange(i as int, i + 1) =~= seq![s@[i as int]]);
            out.append(s.substring_char(i, i + 1));
        }
        i = i + 1;
    }
    assert(s@.take(s@.len() as int) =~= s@);
    out
}

/// What stands in `s` before the first `sep`; all of `s` where there is none.
pub fn head_before(s: &str, sep: &str) -> (r: String)
    requires
        sep@.len() > 0,
    ensures
        r@ == pieces(s@, sep@)[0],
{
    let cs = chars_of(s);
    let ps = chars_of(sep);
    proof {
        lemma_find_from(s@, sep@, 0);
        assert(s@.skip(0) =~= s@);
    }
    match position_from(&cs, &ps, 0) {
        Some(j) => s.substring_char(0, j).to_owned(),
        None => s.to_owned(),
    }
}

// ── Bytes ────────────────────────────────────────────────────────────

/// The number of bytes that `c` takes in UTF-8.
pub open spec fn width(c: char) -> nat {
    if c <= '\u{7f}' {
        1
    } else if c <= '\u{7ff}' {
        2
    } else if c <= '\u{ffff}' {
        3
    } else {
        4
    }
}

/// The number of bytes that `s` takes in UTF-8.
pub open spec fn byte_len(s: Text) -> nat
    decreases s.len(),
{
    if s.len() == 0 {
        0
    } else {
        byte_len(s.drop_last()) + width(s.last())
    }
}

/// The prefix of `s`, from the first `i` characters on, that takes `n` bytes.
pub open spec fn byte_prefix_from(s: Text, n: nat, i: int) -> Option<Text>
    decreases s.len() - i,
{
    if i < 0 || s.len() < i {
        None
    } else if byte_len(s.take(i)) == n {
        Some(s.take(i))
    } else if i == s.len() {
        None
    } else {
        byte_prefix_from(s, n, i + 1)
    }
}

/// The prefix of `s` that takes `n` bytes, where there is one.
pub open spec fn byte_prefix(s: Text, n: nat) -> Option<Text> {
    byte_prefix_from(s, n, 0)
}

proof fn lemma_byte_len_step(s: Text, i: int)
    requires
        0 <= i < s.len(),
    ensures
        byte_len(s.take(i + 1)) == byte_len(s.take(i)) + width(s[i]),
{
    assert(s.take(i + 1).drop_last() =~= s.take(i));
}

proof fn lemma_byte_len_monotone(s: Text, i: int, j: int)
    requires
        0 <= i <= j <= s.len(),
    ensures
        byte_len(s.take(i)) + (j - i) <= byte_len(s.take(j)),
    decreases j - i,
{
    if i < j {
        lemma_byte_len_step(s, j - 1);
        lemma_byte_len_monotone(s, i, j - 1);
    }
}

proof fn lemma_byte_prefix_past(s: Text, n: nat, i: int)
    requires
        0 <= i <= s.len(),
        byte_len(s.take(i)) > n,
    ensures
        byte_prefix_from(s, n, i) is None,
    decreases s.len() - i,
{
    if i < s.len() {
        lemma_byte_len_step(s, i);
        lemma_byte_prefix_past(s, n, i + 1);
    }
}

/// The prefix that `byte_prefix` gives is a prefix of `s` and takes `n`
/// bytes; it gives one exactly where one exists.
proof fn lemma_byte_prefix(s: Text, n: nat, k: int)
    requires
        0 <= k <= s.len(),
        byte_len(s.take(k)) == n,
    ensures
        byte_prefix(s, n) == Some(s.take(k)),
{
    lemma_byte_prefix_at(s, n, k, 0);
}

/// Of a text that starts with `n` ASCII characters the first `n` bytes are
/// these.
pub proof fn law_ascii_prefix(s: Text, n: nat)
    requires
        n <= s.len(),
        forall|i: int| 0 <= i < n ==> #[trigger] s[i] <= '\u{7f}',
    ensures
        byte_prefix(s, n) == Some(s.take(n as int)),
{
    lemma_ascii_len(s, n as int);
    lemma_byte_prefix(s, n, n as int);
}

proof fn lemma_ascii_len(s: Text, n: int)
    requires
        0 <= n <= s.len(),
        forall|i: int| 0 <= i < n ==> #[trigger] s[i] <= '\u{7f}',
    ensures
        byte_len(s.take(n)) == n,
    decreases n,
{
    if n > 0 {
        lemma_ascii_len(s, n - 1);
        lemma_byte_len_step(s, n - 1);
        assert(s[n - 1] <= '\u{7f}');
    } else {
        assert(s.take(0) =~= Seq::empty());
    }
}

proof fn lemma_byte_prefix_at(s: Text, n: nat, k: int, i: int)
    requires
        0 <= i <= k <= s.len(),
        byte_len(s.take(k)) == n,
    ensures
        byte_prefix_from(s, n, i) == Some(s.take(k)),
    decreases k - i,
{
    if i < k {
        lemma_byte_len_monotone(s, i, k);
        lemma_byte_prefix_at(s, n, k, i + 1);
    }
}

/// The longest prefix of `s` that takes at most `n` bytes.
pub open spec fn cut_off(s: Text, n: nat) -> Text
    decreases s.len(),
{
    if s.len() == 0 || byte_len(s) <= n {
        s
    } else {
        cut_off(s.drop_last(), n)
    }
}

/// What is cut off is a prefix of at most `n` bytes, and one more character
/// would take more; where the first `n` bytes end between two characters, it
/// is these.
pub proof fn law_cut_off(s: Text, n: nat)
    ensures
        ({
            let k = cut_off(s, n).len() as int;
            &&& k <= s.len()
            &&& cut_off(s, n) == s.take(k)
            &&& byte_len(s.take(k)) <= n
            &&& k < s.len() ==> byte_len(s.take(k + 1)) > n
        }),
        byte_prefix(s, n) matches Some(p) ==> cut_off(s, n) == p,
{
    lemma_cut_off_len(s, n);
    let k = cut_off(s, n).len() as int;
    if byte_prefix(s, n) is Some {
        lemma_byte_prefix_is(s, n, 0);
        let j = choose|j: int|
            0 <= j <= s.len() && byte_prefix(s, n) == Some(#[trigger] s.take(j)) && byte_len(
                s.take(j),
            ) == n;
        if k < j {
            lemma_byte_len_monotone(s, k + 1, j);
        } else if j < k {
            lemma_byte_len_monotone(s, j, k);
        }
    }
}

proof fn lemma_byte_prefix_is(s: Text, n: nat, i: int)
    requires
        byte_prefix_from(s, n, i) is Some,
    ensures
        exists|j: int|
            0 <= j <= s.len() && byte_prefix_from(s, n, i) == Some(#[trigger] s.take(j))
                && byte_len(s.take(j)) == n,
    decreases s.len() - i,
{
    if byte_len(s.take(i)) != n {
        lemma_byte_prefix_is(s, n, i + 1);
    }
}

proof fn lemma_cut_off_len(s: Text, n: nat)
    ensures
        ({
            let k = cut_off(s, n).len() as int;
            &&& k <= s.len()
            &&& cut_off(s, n) == s.take(k)
            &&& byte_len(s.take(k)) <= n
            &&& k < s.len() ==> byte_len(s.take(k + 1)) > n
        }),
    decreases s.len(),
{
    assert(s.take(s.len() as int) =~= s);
    if s.len() > 0 && byte_len(s) > n {
        let init = s.drop_last();
        lemma_cut_off_len(init, n);
        let k = cut_off(init, n).len() as int;
        assert(init.take(k) =~= s.take(k));
        if k < init.len() {
            assert(init.take(k + 1) =~= s.take(k + 1));
        }
    }
}

/// The number of bytes that `c` takes in UTF-8.
pub fn char_width(c: char) -> (r: usize)
    ensures
        r == width(c),
        1 <= r <= 4,
{
    if c <= '\u{7f}' {
        1
    } else if c <= '\u{7ff}' {
        2
    } else if c <= '\u{ffff}' {
        3
    } else {
        4
    }
}

/// The first `n` bytes of `s`, where they end between two characters.
pub fn get_prefix<'a>(s: &'a str, n: usize) -> (r: Option<&'a str>)
    ensures
        r.deep_view() == byte_prefix(s@, n as nat),
{
    let cs = chars_of(s);
    let mut used: usize = 0;
    let mut i: usize = 0;
    assert(s@.take(0) =~= Seq::empty());
    loop
        invariant
            cs@ == s@,
            i <= cs.len(),
            used <= n,
            used == byte_len(s@.take(i as int)),
            byte_prefix(s@, n as nat) == byte_prefix_from(s@, n as nat, i as int),
        decreases cs.len() - i,
    {
        if used == n {
            assert(s@.subrange(0, i as int) =~= s@.take(i as int));
            return Some(s.substring_char(0, i));
        }
        if i == cs.len() {
            return None;
        }
        let w = char_width(cs[i]);
        proof {
            lemma_byte_len_step(s@, i as int);
        }
        if w > n - used {
            proof {
                lemma_byte_prefix_past(s@, n as nat, i + 1);
            }
            return None;
        }
        used = used + w;
        i = i + 1;
    }
}

/// The longest prefix of `s` that takes at most `n` bytes.
pub fn cut<'a>(s: &'a str, n: usize) -> (r: &'a str)
    ensures
        r@ == cut_off(s@, n as nat),
{
    let cs = chars_of(s);
    let mut used: usize = 0;
    let mut i: usize = 0;
    assert(s@.take(0) =~= Seq::empty());
    let ghost k = cut_off(s@, n as nat).len() as int;
    proof {
        law_cut_off(s@, n as nat);
    }
    while i < cs.len()
        invariant
            cs@ == s@,
            i <= cs.len(),
            used <= n,
            used == byte_len(s@.take(i as int)),
            i <= k <= s@.len(),
            byte_len(s@.take(k)) <= n,
            k < s@.len() ==> byte_len(s@.take(k + 1)) > n,
            cut_off(s@, n as nat) == s@.take(k),
        decreases cs.len() - i,
    {
        let w = char_width(cs[i]);
        proof {
            lemma_byte_len_step(s@, i as int);
        }
        if w > n - used {
            proof {
                if i < k {
                    lemma_byte_len_monotone(s@, i + 1, k);
                }
                assert(s@.subrange(0, i as int) =~= s@.take(i as int));
            }
            return s.substring_char(0, i);
        }
        used = used + w;
        i = i + 1;
    }
    assert(s@.take(s@.len() as int) =~= s@);
    s
}

/// Whether `s` takes more than `n` bytes.
pub fn longer_than(s: &str, n: usize) -> (r: bool)
    ensures
        r == (byte_len(s@) > n),
{
    let cs = chars_of(s);
    let mut used: usize = 0;
    let mut i: usize = 0;
    assert(s@.take(0) =~= Seq::empty());
    assert(s@.take(s@.len() as int) =~= s@);
    while i < cs.len()
        invariant
            cs@ == s@,
            s@.take(s@.len() as int) == s@,
            i <= cs.len(),
            used <= n,
            used == byte_len(s@.take(i as int)),
        decreases cs.len() - i,
    {
        let w = char_width(cs[i]);
        proof {
            lemma_byte_len_step(s@, i as int);
        }
        if w > n - used {
            proof {
                lemma_byte_len_monotone(s@, i + 1, s@.len() as int);
            }
            return true;
        }
        used = used + w;
        i = i + 1;
    }
    false
}

// ── Order ────────────────────────────────────────────────────────────

/// From position `i` on, `a` does not come after `b` in the order in which
/// the first difference decides and a prefix comes first.
pub open spec fn not_after_from(a: Text, b: Text, i: int) -> bool
    decreases a.len() - i,
{
    if i < 0 || i >= a.len() {
        true
    } else if i >= b.len() {
        false
    } else if a[i] == b[i] {
        not_after_from(a, b, i + 1)
    } else {
        a[i] < b[i]
    }
}

/// `a` does not come after `b` in the lexicographic order of their
/// characters.
pub open spec fn not_after(a: Text, b: Text) -> bool {
    not_after_from(a, b, 0)
}

/// Of two texts one does not come after the other.
pub proof fn lemma_order_total(a: Text, b: Text, i: int)
    requires
        0 <= i,
    ensures
        not_after_from(a, b, i) || not_after_from(b, a, i),
    decreases a.len() - i,
{
    if i < a.len() && i < b.len() && a[i] == b[i] {
        lemma_order_total(a, b, i + 1);
    }
}

/// The order of texts is transitive.
pub proof fn lemma_order_transitive(a: Text, b: Text, c: Text, i: int)
    requires
        0 <= i,
        not_after_from(a, b, i),
        not_after_from(b, c, i),
    ensures
        not_after_from(a, c, i),
    decreases a.len() - i,
{
    if i < a.len() && i < b.len() && i < c.len() && a[i] == b[i] && b[i] == c[i] {
        lemma_order_transitive(a, b, c, i + 1);
    }
}

/// Whether `a` does not come after `b`.
pub fn in_order(a: &str, b: &str) -> (r: bool)
    ensures
        r == not_after(a@, b@),
{
    let x = chars_of(a);
    let y = chars_of(b);
    let mut i: usize = 0;
    loop
        invariant
            x@ == a@,
            y@ == b@,
            i <= x.len(),
            i <= y.len(),
            not_after(a@, b@) == not_after_from(a@, b@, i as int),
        decreases x.len() - i,
    {
        if i == x.len() {
            return true;
        }
        if i == y.len() {
            return false;
        }
        if x[i] != y[i] {
            return x[i] < y[i];
        }
        i = i + 1;
    }
}

} // verus!
