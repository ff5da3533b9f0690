//! Texts: their parts, words and pieces, their length in bytes, and numbers
//! written out.

use crate::display::{color_of, downloads_text};
use crate::render::{decimal, digit, distinct, joined, lemma_distinct, signed};
use crate::text::{
    after_last, begins, byte_len, byte_prefix, byte_prefix_from, ends, find, find_back, find_from,
    holds, is_space, lemma_find_from, not_after, not_after_from, occurs_at, pieces, pieces_from,
    replaced, back_space, skip_space, skip_word, strip_ends, strip_starts, trimmed, trimmed_end,
    width, words, words_from, Text,
};
use crate::types::{lemma_signs, lemma_words, of_emoji, of_word, Health};
use vstd::prelude::*;

verus! {

// ── Parts ────────────────────────────────────────────────────────────

/// A text begins with what it can be completed from, ends with what completes
/// something to it, and holds what stands between two parts of it.
pub proof fn law_parts_of_a_text(a: Text, p: Text, b: Text, s: Text)
    ensures
        begins(p + b, p),
        ends(a + p, p),
        holds(a + p + b, p),
        begins(s, p) ==> s == p + s.skip(p.len() as int),
        ends(s, p) ==> s == s.take(s.len() - p.len()) + p,
        holds(s, p) ==> exists|i: int|
            0 <= i <= s.len() - p.len() && s == #[trigger] s.take(i) + p + s.skip(i + p.len()),
{
    assert((p + b).subrange(0, p.len() as int) =~= p);
    assert((a + p).subrange(a.len() as int, (a.len() + p.len()) as int) =~= p);
    assert((a + p + b).subrange(a.len() as int, (a.len() + p.len()) as int) =~= p);
    assert(occurs_at(a + p + b, p, a.len() as int));
    if begins(s, p) {
        assert(s =~= s.subrange(0, p.len() as int) + s.skip(p.len() as int));
    }
    if ends(s, p) {
        let i = s.len() - p.len();
        assert(s =~= s.take(i) + s.subrange(i, i + p.len()));
    }
    if holds(s, p) {
        let i = choose|i: int| occurs_at(s, p, i);
        assert(s =~= s.take(i) + s.subrange(i, i + p.len()) + s.skip(i + p.len()));
    }
}

/// A part is found at the first place where it stands, if it is held at all.
pub proof fn law_first_place_is_found(s: Text, p: Text)
    ensures
        find(s, p) is Some <==> holds(s, p),
        find(s, p) matches Some(k) ==> 0 <= k <= s.len() - p.len() && begins(s.skip(k), p)
            && forall|j: int| 0 <= j < k ==> !begins(#[trigger] s.skip(j), p),
{
    lemma_find_from(s, p, 0);
    if let Some(k) = find(s, p) {
        assert(s.skip(k).subrange(0, p.len() as int) =~= s.subrange(k, k + p.len()));
        assert forall|j: int| 0 <= j < k implies !begins(#[trigger] s.skip(j), p) by {
            assert(s.skip(j).subrange(0, p.len() as int) =~= s.subrange(j, j + p.len()));
            assert(!occurs_at(s, p, j));
        }
    }
}

proof fn lemma_find_back(s: Text, p: Text, i: int)
    ensures
        match find_back(s, p, i) {
            Some(k) => 0 <= k <= i && occurs_at(s, p, k) && forall|j: int|
                k < j <= i ==> !occurs_at(s, p, j),
            None => forall|j: int| 0 <= j <= i ==> !occurs_at(s, p, j),
        },
    decreases i + 1,
{
    if i >= 0 && !occurs_at(s, p, i) {
        lemma_find_back(s, p, i - 1);
    }
}

/// What stands after the last of some parts holds none of them; the whole
/// text does where it holds none.
pub proof fn law_after_the_last(s: Text, p: Text)
    requires
        p.len() > 0,
    ensures
        holds(s, p) ==> ends(s, p + after_last(s, p)),
        !holds(s, p) ==> after_last(s, p) == s,
        !holds(after_last(s, p), p),
{
    let n = s.len() - p.len();
    lemma_find_back(s, p, n);
    match find_back(s, p, n) {
        Some(k) => {
            let t = s.skip(k + p.len());
            assert(s.subrange(k, s.len() as int) =~= s.subrange(k, k + p.len()) + t);
            if holds(t, p) {
                let j = choose|j: int| occurs_at(t, p, j);
                let at = k + p.len() + j;
                assert(s.subrange(at, at + p.len()) =~= t.subrange(j, j + p.len()));
                assert(occurs_at(s, p, at));
                assert(false);
            }
        },
        None => {
            if holds(s, p) {
                let j = choose|j: int| occurs_at(s, p, j);
                assert(false);
            }
        },
    }
}

/// Everything in front of a text that is the given part is taken away, and
/// nothing else.
pub proof fn law_starts_are_stripped(s: Text, p: Text)
    requires
        p.len() > 0,
    ensures
        strip_starts(p + s, p) == strip_starts(s, p),
        !begins(s, p) ==> strip_starts(s, p) == s,
        !begins(strip_starts(s, p), p),
        ends(s, strip_starts(s, p)),
    decreases s.len(),
{
    assert((p + s).subrange(0, p.len() as int) =~= p);
    assert((p + s).skip(p.len() as int) =~= s);
    assert(s.subrange(0, s.len() as int) =~= s);
    if begins(s, p) {
        let t = s.skip(p.len() as int);
        law_starts_are_stripped(t, p);
        let r = strip_starts(t, p);
        assert(s.subrange(s.len() - r.len(), s.len() as int) =~= t.subrange(
            t.len() - r.len(),
            t.len() as int,
        ));
    }
}

/// Everything at the end of a text that is the given part is taken away, and
/// nothing else.
pub proof fn law_ends_are_stripped(s: Text, p: Text)
    requires
        p.len() > 0,
    ensures
        strip_ends(s + p, p) == strip_ends(s, p),
        !ends(s, p) ==> strip_ends(s, p) == s,
        !ends(strip_ends(s, p), p),
        begins(s, strip_ends(s, p)),
    decreases s.len(),
{
    let n = s.len() as int;
    assert((s + p).subrange(n, n + p.len()) =~= p);
    assert((s + p).take(n) =~= s);
    assert(s.subrange(0, n) =~= s);
    if ends(s, p) {
        let t = s.take(n - p.len());
        law_ends_are_stripped(t, p);
        let r = strip_ends(t, p);
        assert(s.subrange(0, r.len() as int) =~= t.subrange(0, r.len() as int));
    }
}

// ── Spaces and words ─────────────────────────────────────────────────

/// White space, by code point.
pub proof fn law_white_space(c: char)
    ensures
        is_space(c) <==> {
            let n = c as u32;
            ||| 9 <= n <= 13
            ||| n == 32
            ||| n == 0x85
            ||| n == 0xa0
            ||| n == 0x1680
            ||| 0x2000 <= n <= 0x200a
            ||| n == 0x2028
            ||| n == 0x2029
            ||| n == 0x202f
            ||| n == 0x205f
            ||| n == 0x3000
        },
{
}

/// A text of white space only.
pub open spec fn blank(s: Text) -> bool {
    forall|i: int| 0 <= i < s.len() ==> is_space(#[trigger] s[i])
}

/// A text that neither begins nor ends with white space.
pub open spec fn tight(s: Text) -> bool {
    s.len() > 0 ==> !is_space(s[0]) && !is_space(s.last())
}

proof fn lemma_skip_space(s: Text, i: int)
    requires
        0 <= i <= s.len(),
    ensures
        i <= skip_space(s, i) <= s.len(),
        forall|k: int| i <= k < skip_space(s, i) ==> is_space(#[trigger] s[k]),
        skip_space(s, i) < s.len() ==> !is_space(s[skip_space(s, i)]),
    decreases s.len() - i,
{
    if i < s.len() && is_space(s[i]) {
        lemma_skip_space(s, i + 1);
    }
}

proof fn lemma_skip_word(s: Text, i: int)
    requires
        0 <= i <= s.len(),
    ensures
        i <= skip_word(s, i) <= s.len(),
        forall|k: int| i <= k < skip_word(s, i) ==> !is_space(#[trigger] s[k]),
        skip_word(s, i) < s.len() ==> is_space(s[skip_word(s, i)]),
    decreases s.len() - i,
{
    if i < s.len() && !is_space(s[i]) {
        lemma_skip_word(s, i + 1);
    }
}

proof fn lemma_back_space(s: Text, i: int)
    requires
        0 <= i <= s.len(),
    ensures
        0 <= back_space(s, i) <= i,
        forall|k: int| back_space(s, i) <= k < i ==> is_space(#[trigger] s[k]),
        0 < back_space(s, i) ==> !is_space(s[back_space(s, i) - 1]),
    decreases i,
{
    if 0 < i && is_space(s[i - 1]) {
        lemma_back_space(s, i - 1);
    }
}

/// Trimming takes white space away at both ends, or at the end, and only
/// that; nothing is left to take away.
pub proof fn law_trimming(s: Text)
    ensures
        tight(trimmed(s)),
        exists|a: Text, b: Text| #[trigger] (a + trimmed(s) + b) == s && blank(a) && blank(b),
        trimmed_end(s).len() > 0 ==> !is_space(trimmed_end(s).last()),
        begins(s, trimmed_end(s)) && blank(s.skip(trimmed_end(s).len() as int)),
{
    let n = s.len() as int;
    lemma_skip_space(s, 0);
    lemma_back_space(s, n);
    let a = skip_space(s, 0);
    let b = back_space(s, n);
    assert(s.subrange(0, b) =~= s.take(b));
    if a < b {
        assert(s.take(a) + s.subrange(a, b) + s.skip(b) =~= s);
        assert(blank(s.take(a)) && blank(s.skip(b)));
    } else {
        assert forall|k: int| 0 <= k < n implies is_space(#[trigger] s[k]) by {}
        assert(s + trimmed(s) + Seq::<char>::empty() =~= s);
        assert(blank(s) && blank(Seq::<char>::empty()));
    }
    assert(blank(s.skip(b)));
}

proof fn lemma_skip_space_shifts(s: Text, i: int, k: int)
    requires
        0 <= i <= s.len(),
        0 <= k <= s.len() - i,
    ensures
        skip_space(s, i + k) == i + skip_space(s.skip(i), k),
        skip_word(s, i + k) == i + skip_word(s.skip(i), k),
    decreases s.len() - i - k,
{
    if i + k < s.len() {
        assert(s.skip(i)[k] == s[i + k]);
        lemma_skip_space_shifts(s, i, k + 1);
    }
}

proof fn lemma_words_shift(s: Text, i: int, k: int)
    requires
        0 <= i <= s.len(),
        0 <= k <= s.len() - i,
    ensures
        words_from(s, i + k) == words_from(s.skip(i), k),
    decreases s.len() - i - k,
{
    let t = s.skip(i);
    lemma_skip_space(s, i + k);
    lemma_skip_space_shifts(s, i, k);
    let a = skip_space(t, k);
    lemma_skip_word(s, i + a);
    lemma_skip_space_shifts(s, i, a);
    let b = skip_word(t, a);
    if a < b {
        assert(s.subrange(i + a, i + b) =~= t.subrange(a, b));
        lemma_words_shift(s, i, b);
    }
}

/// A text without white space.
pub open spec fn spaceless(s: Text) -> bool {
    forall|i: int| 0 <= i < s.len() ==> !is_space(#[trigger] s[i])
}

/// The words of a text are what stands between its white space: a word in
/// front of white space, or of nothing, is the first; white space in front is
/// skipped; nothing has no words.
pub proof fn law_words(w: Text, c: char, s: Text)
    requires
        w.len() > 0,
        spaceless(w),
        is_space(c),
    ensures
        words(Seq::empty()).len() == 0,
        words(seq![c] + s) == words(s),
        words(w) == seq![w],
        words(w + seq![c] + s) == seq![w] + words(s),
{
    let one = seq![c] + s;
    assert(one[0] == c);
    lemma_skip_space(one, 1);
    assert(one.skip(1) =~= s);
    lemma_words_shift(one, 1, 0);
    assert(skip_space(one, 0) == skip_space(one, 1));
    lemma_first_word(w, Seq::empty());
    assert(w + Seq::<char>::empty() =~= w);
    assert(words(Seq::empty()) =~= Seq::<Text>::empty());
    assert(seq![w] + Seq::<Text>::empty() =~= seq![w]);
    lemma_first_word(w, one);
    assert(w + seq![c] + s =~= w + one);
    assert(words(one) == words(s)) by {
        lemma_skip_space_shifts(one, 1, 0);
        let a = skip_space(one, 0);
        lemma_skip_word(one, a);
    }
}

proof fn lemma_first_word(w: Text, t: Text)
    requires
        w.len() > 0,
        spaceless(w),
        t.len() > 0 ==> is_space(t[0]),
    ensures
        words(w + t) == seq![w] + words(t),
{
    let s = w + t;
    let n = w.len() as int;
    assert(s[0] == w[0]);
    lemma_skip_word(s, 0);
    let b = skip_word(s, 0);
    if b < n {
        assert(s[b] == w[b]);
    }
    if n < b {
        assert(s[n] == t[0]);
    }
    assert(b == n);
    assert(s.subrange(0, n) =~= w);
    assert(s.skip(n) =~= t);
    lemma_words_shift(s, n, 0);
}

// ── Pieces ───────────────────────────────────────────────────────────

proof fn lemma_joined_front(x: Text, rest: Seq<Text>, sep: Text)
    requires
        rest.len() > 0,
    ensures
        joined(seq![x] + rest, sep) == x + sep + joined(rest, sep),
    decreases rest.len(),
{
    let all = seq![x] + rest;
    if rest.len() == 1 {
        assert(all.drop_last() =~= seq![x]);
        assert(joined(seq![x], sep) == x);
        assert(joined(rest, sep) == rest[0]);
        assert(all.last() == rest[0]);
    } else {
        assert(all.drop_last() =~= seq![x] + rest.drop_last());
        lemma_joined_front(x, rest.drop_last(), sep);
        assert(joined(all, sep) =~= x + sep + joined(rest, sep));
    }
}

proof fn lemma_pieces(s: Text, sep: Text, i: int)
    requires
        sep.len() > 0,
        0 <= i <= s.len(),
    ensures
        pieces_from(s, sep, i).len() > 0,
        joined(pieces_from(s, sep, i), sep) == s.skip(i),
        forall|k: int|
            0 <= k < pieces_from(s, sep, i).len() ==> !holds(
                #[trigger] pieces_from(s, sep, i)[k],
                sep,
            ),
    decreases s.len() - i,
{
    lemma_find_from(s, sep, i);
    match find_from(s, sep, i) {
        Some(j) => {
            let next = j + sep.len();
            lemma_pieces(s, sep, next);
            let rest = pieces_from(s, sep, next);
            let x = s.subrange(i, j);
            lemma_joined_front(x, rest, sep);
            assert(s.skip(i) =~= x + s.subrange(j, next) + s.skip(next));
            if holds(x, sep) {
                let a = choose|a: int| occurs_at(x, sep, a);
                assert(s.subrange(i + a, i + a + sep.len()) =~= x.subrange(a, a + sep.len()));
                assert(occurs_at(s, sep, i + a));
                assert(false);
            }
            let all = seq![x] + rest;
            assert forall|k: int| 0 <= k < all.len() implies !holds(#[trigger] all[k], sep) by {
                if k > 0 {
                    assert(all[k] == rest[k - 1]);
                }
            }
        },
        None => {
            let t = s.skip(i);
            if holds(t, sep) {
                let a = choose|a: int| occurs_at(t, sep, a);
                assert(s.subrange(i + a, i + a + sep.len()) =~= t.subrange(a, a + sep.len()));
                assert(occurs_at(s, sep, i + a));
                assert(false);
            }
        },
    }
}

/// A text is its pieces, joined again; no piece holds what parts them.
pub proof fn law_pieces(s: Text, sep: Text)
    requires
        sep.len() > 0,
    ensures
        pieces(s, sep).len() > 0,
        joined(pieces(s, sep), sep) == s,
        forall|k: int|
            0 <= k < pieces(s, sep).len() ==> !holds(#[trigger] pieces(s, sep)[k], sep),
{
    lemma_pieces(s, sep, 0);
    assert(s.skip(0) =~= s);
}

proof fn lemma_find_shifts(s: Text, sep: Text, i: int, k: int)
    requires
        0 <= i <= s.len(),
        0 <= k,
    ensures
        match find_from(s.skip(i), sep, k) {
            Some(j) => find_from(s, sep, i + k) == Some(i + j),
            None => find_from(s, sep, i + k) is None,
        },
    decreases s.len() - i - k + 1,
{
    let t = s.skip(i);
    if k + sep.len() <= t.len() {
        assert(t.subrange(k, k + sep.len()) =~= s.subrange(i + k, i + k + sep.len()));
        assert(occurs_at(t, sep, k) == occurs_at(s, sep, i + k));
        if !occurs_at(t, sep, k) {
            lemma_find_shifts(s, sep, i, k + 1);
        }
    }
}

proof fn lemma_pieces_shift(s: Text, sep: Text, i: int, k: int)
    requires
        sep.len() > 0,
        0 <= i <= s.len(),
        0 <= k <= s.len() - i,
    ensures
        pieces_from(s, sep, i + k) == pieces_from(s.skip(i), sep, k),
    decreases s.len() - i - k,
{
    let t = s.skip(i);
    lemma_find_shifts(s, sep, i, k);
    lemma_find_from(t, sep, k);
    match find_from(t, sep, k) {
        Some(j) => {
            assert(s.subrange(i + k, i + j) =~= t.subrange(k, j));
            assert(j + sep.len() <= t.len());
            lemma_pieces_shift(s, sep, i, j + sep.len());
        },
        None => {
            assert(s.skip(i + k) =~= t.skip(k));
        },
    }
}

/// What stands in front of a separator of one character, and does not hold
/// it, is the first piece; the others are those of what follows. A text that
/// does not hold the separator is its only piece.
pub proof fn law_first_piece(a: Text, sep: Text, b: Text)
    requires
        sep.len() == 1,
        !holds(a, sep),
    ensures
        pieces(a, sep) == seq![a],
        pieces(a + sep + b, sep) == seq![a] + pieces(b, sep),
{
    lemma_find_from(a, sep, 0);
    assert(find(a, sep) is None) by {
        if let Some(k) = find(a, sep) {
            assert(occurs_at(a, sep, k));
        }
    }
    assert(a.skip(0) =~= a);
    let s = a + sep + b;
    let n = a.len() as int;
    lemma_find_from(s, sep, 0);
    assert(s.subrange(n, n + 1) =~= sep);
    assert(occurs_at(s, sep, n));
    let k = find(s, sep)->0;
    if k < n {
        assert(a.subrange(k, k + 1) =~= s.subrange(k, k + 1));
        assert(occurs_at(a, sep, k));
    }
    assert(k == n);
    assert(s.subrange(0, n) =~= a);
    assert(s.skip(n + 1) =~= b);
    lemma_pieces_shift(s, sep, n + 1, 0);
}

/// Texts are joined in their order, with the separator between every two.
pub proof fn law_joining(parts: Seq<Text>, x: Text, sep: Text)
    ensures
        joined(Seq::empty(), sep).len() == 0,
        joined(seq![x], sep) == x,
        parts.len() > 0 ==> joined(parts.push(x), sep) == joined(parts, sep) + sep + x,
{
    assert(parts.push(x).drop_last() =~= parts);
}

/// A character is replaced wherever it stands, and nothing else is.
pub proof fn law_replacing(a: Text, b: Text, c: char, from: char, to: Text)
    ensures
        replaced(Seq::empty(), from, to).len() == 0,
        replaced(a + b, from, to) == replaced(a, from, to) + replaced(b, from, to),
        replaced(seq![from], from, to) == to,
        c != from ==> replaced(seq![c], from, to) == seq![c],
    decreases b.len(),
{
    assert(seq![c].drop_last() =~= Seq::<char>::empty());
    assert(seq![from].drop_last() =~= Seq::<char>::empty());
    assert(replaced(Seq::empty(), from, to) + to =~= to);
    assert(replaced(Seq::empty(), from, to) + seq![c] =~= seq![c]);
    if b.len() == 0 {
        assert(a + b =~= a);
        assert(replaced(a, from, to) + replaced(b, from, to) =~= replaced(a, from, to));
    } else {
        law_replacing(a, b.drop_last(), c, from, to);
        assert((a + b).drop_last() =~= a + b.drop_last());
        assert(replaced(a + b, from, to) =~= replaced(a, from, to) + replaced(b, from, to));
    }
}

// ── Bytes ────────────────────────────────────────────────────────────

/// The length of a text in bytes is the sum of those of its characters: one
/// byte below 0x80, two below 0x800, three below 0x10000, else four.
pub proof fn law_length_in_bytes(a: Text, b: Text, c: char)
    ensures
        byte_len(Seq::empty()) == 0,
        byte_len(a + b) == byte_len(a) + byte_len(b),
        (c as u32) < 0x80 ==> byte_len(seq![c]) == 1,
        0x80 <= (c as u32) < 0x800 ==> byte_len(seq![c]) == 2,
        0x800 <= (c as u32) < 0x10000 ==> byte_len(seq![c]) == 3,
        0x10000 <= (c as u32) ==> byte_len(seq![c]) == 4,
    decreases b.len(),
{
    assert(seq![c].drop_last() =~= Seq::<char>::empty());
    assert(seq![c].last() == c);
    assert(byte_len(Seq::empty()) == 0);
    assert(byte_len(seq![c]) == width(c));
    if b.len() == 0 {
        assert(a + b =~= a);
    } else {
        law_length_in_bytes(a, b.drop_last(), c);
        assert((a + b).drop_last() =~= a + b.drop_last());
    }
}

/// The front of a text with the given length in bytes is given where there is
/// one.
pub proof fn law_front_of_so_many_bytes(s: Text, n: nat)
    ensures
        byte_prefix(s, n) matches Some(p) ==> begins(s, p) && byte_len(p) == n,
        byte_prefix(s, n) is None ==> forall|k: int|
            0 <= k <= s.len() ==> byte_len(#[trigger] s.take(k)) != n,
{
    lemma_front(s, n, 0);
}

proof fn lemma_front(s: Text, n: nat, i: int)
    requires
        0 <= i <= s.len(),
    ensures
        byte_prefix_from(s, n, i) matches Some(p) ==> begins(s, p) && byte_len(p) == n,
        byte_prefix_from(s, n, i) is None ==> forall|k: int|
            i <= k <= s.len() ==> byte_len(#[trigger] s.take(k)) != n,
    decreases s.len() - i,
{
    assert(s.subrange(0, i) =~= s.take(i));
    if byte_len(s.take(i)) != n && i < s.len() {
        lemma_front(s, n, i + 1);
    }
}

// ── Order ────────────────────────────────────────────────────────────

/// Texts are ordered by the first character in which they differ; the front of
/// a text does not come after it, nor the text before its front.
pub proof fn law_order_of_texts(a: Text, b: Text, i: int)
    requires
        0 <= i,
        i <= a.len(),
        i <= b.len(),
        a.take(i) == b.take(i),
    ensures
        i < a.len() && i < b.len() && a[i] < b[i] ==> not_after(a, b) && !not_after(b, a),
        i == a.len() ==> not_after(a, b),
        i == a.len() && i < b.len() ==> !not_after(b, a),
{
    lemma_order_from(a, b, i, 0);
}

proof fn lemma_order_from(a: Text, b: Text, i: int, k: int)
    requires
        0 <= k <= i,
        i <= a.len(),
        i <= b.len(),
        a.take(i) == b.take(i),
    ensures
        i < a.len() && i < b.len() && a[i] < b[i] ==> not_after_from(a, b, k)
            && !not_after_from(b, a, k),
        i == a.len() ==> not_after_from(a, b, k),
        i == a.len() && i < b.len() ==> !not_after_from(b, a, k),
    decreases i - k,
{
    if k < i {
        assert(a[k] == a.take(i)[k] && b[k] == b.take(i)[k]);
        lemma_order_from(a, b, i, k + 1);
    }
}

// ── Numbers ──────────────────────────────────────────────────────────

/// What a decimal number says, read digit by digit.
pub open spec fn number_read(t: Text) -> int
    decreases t.len(),
{
    if t.len() == 0 {
        0
    } else {
        10 * number_read(t.drop_last()) + (t.last() as int - '0' as int)
    }
}

proof fn lemma_digit(d: nat)
    requires
        d < 10,
    ensures
        digit(d).len() == 1,
        digit(d)[0] as int == '0' as int + d,
{
    reveal_strlit("0");
    reveal_strlit("1");
    reveal_strlit("2");
    reveal_strlit("3");
    reveal_strlit("4");
    reveal_strlit("5");
    reveal_strlit("6");
    reveal_strlit("7");
    reveal_strlit("8");
    reveal_strlit("9");
}

/// A number written out is read back as that number, is all digits, and does
/// not begin with a zero unless it is one.
pub proof fn law_numbers_are_written_out(n: nat)
    ensures
        decimal(n).len() > 0,
        number_read(decimal(n)) == n,
        forall|i: int| 0 <= i < decimal(n).len() ==> '0' <= #[trigger] decimal(n)[i] <= '9',
        n > 0 ==> decimal(n)[0] != '0',
        n == 0 ==> decimal(n).len() == 1,
    decreases n,
{
    lemma_digit(n % 10);
    let t = decimal(n);
    if n < 10 {
        assert(n % 10 == n);
        assert(t.drop_last() =~= Seq::<char>::empty());
        assert(number_read(t.drop_last()) == 0);
    } else {
        law_numbers_are_written_out(n / 10);
        let front = decimal(n / 10);
        assert(t.drop_last() =~= front);
        assert(t.last() == digit(n % 10)[0]);
        assert(t[0] == front[0]);
        assert forall|i: int| 0 <= i < t.len() implies '0' <= #[trigger] t[i] <= '9' by {
            if i < front.len() {
                assert(t[i] == front[i]);
            } else {
                assert(t[i] == digit(n % 10)[0]);
            }
        }
    }
}

/// A negative number is written out with a sign in front.
pub proof fn law_signs_are_written(i: int)
    ensures
        i >= 0 ==> number_read(signed(i)) == i && signed(i)[0] != '-',
        i < 0 ==> signed(i)[0] == '-' && number_read(signed(i).skip(1)) == -i,
{
    reveal_strlit("-");
    if i >= 0 {
        law_numbers_are_written_out(i as nat);
        assert('0' <= decimal(i as nat)[0] <= '9');
    } else {
        law_numbers_are_written_out((-i) as nat);
        assert(signed(i).skip(1) =~= decimal((-i) as nat));
    }
}

/// Downloads are said in millions from a million on, in thousands from a
/// thousand on, to the nearest tenth, and else exactly.
pub proof fn law_downloads(n: nat)
    ensures
        n < 1_000 ==> downloads_text(n) == decimal(n),
        1_000 <= n < 1_000_000 ==> exists|q: nat, r: nat|
            r < 10 && 20 * n <= 2_000 * (10 * q + r) + 1_000 && 2_000 * (10 * q + r)
                <= 20 * n + 1_000 && downloads_text(n) == #[trigger] (decimal(q) + "."@ + decimal(r))
                + "K"@,
        1_000_000 <= n ==> exists|q: nat, r: nat|
            r < 10 && 20 * n <= 2_000_000 * (10 * q + r) + 1_000_000 && 2_000_000 * (10 * q + r)
                <= 20 * n + 1_000_000 && downloads_text(n) == #[trigger] (decimal(q) + "."@
                + decimal(r)) + "M"@,
{
    if 1_000 <= n < 1_000_000 {
        let t = (10 * n + 500) / 1_000;
        let q = t / 10;
        let r = t % 10;
        assert(10 * q + r == t);
        assert(downloads_text(n) == (decimal(q) + "."@ + decimal(r)) + "K"@);
    }
    if 1_000_000 <= n {
        let t = (10 * n + 500_000) / 1_000_000;
        let q = t / 10;
        let r = t % 10;
        assert(10 * q + r == t);
        assert(downloads_text(n) == (decimal(q) + "."@ + decimal(r)) + "M"@);
    }
}

// ── Lists ────────────────────────────────────────────────────────────

/// Of texts that occur more than once the first is kept, and the order stays.
pub proof fn law_repeated_texts_are_dropped(s: Seq<Text>, x: Text)
    ensures
        distinct(s).no_duplicates(),
        forall|y: Text| #[trigger] distinct(s).contains(y) <==> s.contains(y),
        s.contains(x) ==> distinct(s.push(x)) == distinct(s),
        !s.contains(x) ==> distinct(s.push(x)) == distinct(s).push(x),
{
    lemma_distinct(s);
    assert(s.push(x).drop_last() =~= s);
}

// ── Health ───────────────────────────────────────────────────────────

/// Health is read back from its sign and from its word, and is unknown for
/// any other text; it has the color of its severity.
pub proof fn law_health_is_read_back(h: Health, t: Text)
    ensures
        of_emoji(h.emoji()) == h,
        of_word(h.word()) == h,
        of_emoji(t) != Health::Unknown ==> t == of_emoji(t).emoji(),
        of_word(t) != Health::Unknown ==> t == of_word(t).word(),
        h == Health::Healthy ==> h.emoji() == "✅"@ && h.word() == "healthy"@ && color_of(h)
            == "\x1b[32m"@,
        h == Health::Warning ==> h.emoji() == "⚠️"@ && h.word() == "warning"@ && color_of(h)
            == "\x1b[33m"@,
        h == Health::Inactive ==> h.emoji() == "🔴"@ && h.word() == "inactive"@ && color_of(h)
            == "\x1b[31m"@,
        h == Health::Dead ==> h.emoji() == "🪦"@ && h.word() == "dead"@ && color_of(h)
            == "\x1b[31m"@,
        h == Health::Hijack ==> h.emoji() == "🚩"@ && h.word() == "hijack"@ && color_of(h)
            == "\x1b[90m"@,
        h == Health::Unknown ==> h.emoji() == "❓"@ && h.word() == "unknown"@ && color_of(h)
            == "\x1b[90m"@,
{
    lemma_words(h);
    lemma_signs(h);
}

} // verus!
