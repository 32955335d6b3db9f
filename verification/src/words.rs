//! Whitespace-aware text: trimming, splitting into words, capitalising, and
//! the display form of file names. Which characters are whitespace, and what
//! a character's uppercase is, come from the standard library; the functions
//! here that take those answers as arguments hold the rest of the logic.
use vstd::prelude::*;

use crate::text::{
    before_first, before_first_char, chars_of, concat, join, join_parts, string_of, swap_char,
    swap_chars, views,
};
use crate::unicode::{
    ascii_upper_char, is_ascii_char, is_whitespace, upper_mapping, uppercase, white_space,
};

verus! {

// ---------------------------------------------------------------------------
// Specifications
// ---------------------------------------------------------------------------

/// Which characters of `s` are whitespace.
pub open spec fn whitespace_mask(s: Seq<char>) -> Seq<bool> {
    s.map_values(|c: char| white_space(c))
}

/// How many `true` the mask starts with.
pub open spec fn leading(m: Seq<bool>) -> nat
    decreases m.len(),
{
    if m.len() > 0 && m[0] {
        1 + leading(m.drop_first())
    } else {
        0
    }
}

/// How many `true` the mask ends with.
pub open spec fn trailing(m: Seq<bool>) -> nat
    decreases m.len(),
{
    if m.len() > 0 && m.last() {
        1 + trailing(m.drop_last())
    } else {
        0
    }
}

/// `s` without the leading and trailing characters that mask `m` marks.
pub open spec fn trim_by(s: Seq<char>, m: Seq<bool>) -> Seq<char> {
    if leading(m) >= s.len() {
        seq![]
    } else {
        s.subrange(leading(m) as int, s.len() - trailing(m))
    }
}

/// `s` without leading and trailing whitespace, as `str::trim` gives it.
pub open spec fn trim(s: Seq<char>) -> Seq<char> {
    trim_by(s, whitespace_mask(s))
}

/// The words of `s`, read from the left with `cur` holding the letters of the
/// word under way: the maximal runs of characters that mask `m` leaves
/// unmarked.
pub open spec fn words_by(s: Seq<char>, m: Seq<bool>, cur: Seq<char>) -> Seq<Seq<char>>
    decreases s.len(),
{
    if s.len() == 0 {
        if cur.len() > 0 {
            seq![cur]
        } else {
            seq![]
        }
    } else if m.len() > 0 && m[0] {
        (if cur.len() > 0 {
            seq![cur]
        } else {
            seq![]
        }) + words_by(s.drop_first(), m.drop_first(), seq![])
    } else {
        words_by(s.drop_first(), m.drop_first(), cur.push(s[0]))
    }
}

/// The whitespace-separated words of `s`, as `str::split_whitespace` gives them.
pub open spec fn words(s: Seq<char>) -> Seq<Seq<char>> {
    words_by(s, whitespace_mask(s), seq![])
}

/// `s` with its first character replaced by `head`.
pub open spec fn with_head(s: Seq<char>, head: Seq<char>) -> Seq<char> {
    if s.len() == 0 {
        s
    } else {
        head + s.drop_first()
    }
}

/// `s` with its first character replaced by that character's uppercase mapping.
pub open spec fn upper_first(s: Seq<char>) -> Seq<char> {
    if s.len() == 0 {
        s
    } else {
        with_head(s, uppercase(s[0]))
    }
}

/// What a file name is shown as: underscores read as spaces, everything from
/// the first dot on dropped, and the words capitalised and joined by single
/// spaces.
pub open spec fn display_name(s: Seq<char>) -> Seq<char> {
    join(
        words(before_first(swap_char(s, '_', ' '), '.')).map_values(|w: Seq<char>| upper_first(w)),
        seq![' '],
    )
}

/// Whether every character of `w` is whitespace.
pub open spec fn all_whitespace(w: Seq<char>) -> bool {
    forall|i: int| 0 <= i < w.len() ==> white_space(#[trigger] w[i])
}

// ---------------------------------------------------------------------------
// Facts about masks
// ---------------------------------------------------------------------------

/// `leading(m)` is `k` when the first `k` marks are set and the next is not.
proof fn lemma_leading_is(m: Seq<bool>, k: int)
    requires
        0 <= k <= m.len(),
        forall|j: int| 0 <= j < k ==> #[trigger] m[j],
        k == m.len() || !m[k],
    ensures
        leading(m) == k,
    decreases k,
{
    if k > 0 {
        assert(m[0]);
        assert forall|j: int| 0 <= j < k - 1 implies #[trigger] m.drop_first()[j] by {
            assert(m.drop_first()[j] == m[j + 1]);
        }
        if k < m.len() {
            assert(m.drop_first()[k - 1] == m[k]);
        }
        lemma_leading_is(m.drop_first(), k - 1);
    }
}

/// `trailing(m)` is `k` when the last `k` marks are set and the one before
/// them is not.
proof fn lemma_trailing_is(m: Seq<bool>, k: int)
    requires
        0 <= k <= m.len(),
        forall|j: int| m.len() - k <= j < m.len() ==> #[trigger] m[j],
        k == m.len() || !m[m.len() - 1 - k],
    ensures
        trailing(m) == k,
    decreases k,
{
    if k > 0 {
        assert(m[m.len() - 1]);
        assert forall|j: int| m.drop_last().len() - (k - 1) <= j < m.drop_last().len() implies #[trigger] m.drop_last()[j] by {
            assert(m.drop_last()[j] == m[j]);
        }
        if k < m.len() {
            assert(m.drop_last()[m.drop_last().len() - 1 - (k - 1)] == m[m.len() - 1 - k]);
        }
        lemma_trailing_is(m.drop_last(), k - 1);
    }
}

/// What `leading` and `trailing` count.
proof fn lemma_mask_counts(m: Seq<bool>)
    ensures
        leading(m) <= m.len(),
        forall|j: int| 0 <= j < leading(m) ==> #[trigger] m[j],
        leading(m) == m.len() || !m[leading(m) as int],
        trailing(m) <= m.len(),
        forall|j: int| m.len() - trailing(m) <= j < m.len() ==> #[trigger] m[j],
        trailing(m) == m.len() || !m[m.len() - 1 - trailing(m)],
    decreases m.len(),
{
    if m.len() > 0 {
        lemma_mask_counts(m.drop_first());
        lemma_mask_counts(m.drop_last());
        if m[0] {
            assert forall|j: int| 0 <= j < leading(m) implies #[trigger] m[j] by {
                if j > 0 {
                    assert(m[j] == m.drop_first()[j - 1]);
                }
            }
            if leading(m) < m.len() {
                assert(m[leading(m) as int] == m.drop_first()[leading(m.drop_first()) as int]);
            }
        }
        if m.last() {
            assert forall|j: int| m.len() - trailing(m) <= j < m.len() implies #[trigger] m[j] by {
                if j < m.len() - 1 {
                    assert(m[j] == m.drop_last()[j]);
                }
            }
            if trailing(m) < m.len() {
                assert(m[m.len() - 1 - trailing(m)] == m.drop_last()[m.drop_last().len() - 1 - trailing(m.drop_last())]);
            }
        }
    }
}

// ---------------------------------------------------------------------------
// Logic over given answers
// ---------------------------------------------------------------------------

/// `s` without the leading and trailing characters marked in `mask`.
pub fn trim_masked(s: &Vec<char>, mask: &Vec<bool>) -> (out: Vec<char>)
    requires
        mask.len() == s.len(),
    ensures
        out@ == trim_by(s@, mask@),
{
    let n: usize = s.len();
    let mut start: usize = 0;
    while start < n && mask[start]
        invariant
            n == s.len(),
            n == mask.len(),
            start <= n,
            forall|j: int| 0 <= j < start ==> #[trigger] mask@[j],
        decreases n - start,
    {
        start = start + 1;
    }
    proof {
        lemma_leading_is(mask@, start as int);
    }
    if start == n {
        return Vec::new();
    }
    let mut end: usize = n;
    while end > start && mask[end - 1]
        invariant
            n == s.len(),
            n == mask.len(),
            start < n,
            !mask@[start as int],
            start <= end <= n,
            forall|j: int| end <= j < n ==> #[trigger] mask@[j],
        decreases end,
    {
        end = end - 1;
    }
    proof {
        lemma_trailing_is(mask@, (n - end) as int);
    }
    let mut out: Vec<char> = Vec::new();
    let mut k: usize = start;
    while k < end
        invariant
            start <= k <= end <= n,
            n == s.len(),
            out@ == s@.subrange(start as int, k as int),
        decreases end - k,
    {
        out.push(s[k]);
        assert(s@.subrange(start as int, k as int).push(s@[k as int]) =~= s@.subrange(start as int, k + 1));
        k = k + 1;
    }
    out
}

/// The runs of `s` that `mask` leaves unmarked, from the left.
pub fn split_masked(s: &Vec<char>, mask: &Vec<bool>) -> (out: Vec<Vec<char>>)
    requires
        mask.len() == s.len(),
    ensures
        views(out@) == words_by(s@, mask@, seq![]),
{
    let mut out: Vec<Vec<char>> = Vec::new();
    let mut cur: Vec<char> = Vec::new();
    let n: usize = s.len();
    assert(s@.skip(0) =~= s@);
    assert(mask@.skip(0) =~= mask@);
    assert(views(out@) =~= Seq::<Seq<char>>::empty());
    for i in 0..n
        invariant
            n == s.len(),
            n == mask.len(),
            words_by(s@, mask@, seq![]) == views(out@) + words_by(s@.skip(i as int), mask@.skip(i as int), cur@),
    {
        let ghost rest = s@.skip(i as int);
        let ghost rest_mask = mask@.skip(i as int);
        assert(rest.drop_first() =~= s@.skip(i + 1));
        assert(rest_mask.drop_first() =~= mask@.skip(i + 1));
        assert(rest[0] == s@[i as int]);
        assert(rest_mask[0] == mask@[i as int]);
        let c = s[i];
        if mask[i] {
            if cur.len() > 0 {
                let ghost before = views(out@);
                let ghost word = cur@;
                out.push(cur);
                cur = Vec::new();
                assert(views(out@) =~= before.push(word));
                assert(before + (seq![word] + words_by(s@.skip(i + 1), mask@.skip(i + 1), seq![]))
                    =~= views(out@) + words_by(s@.skip(i + 1), mask@.skip(i + 1), cur@));
            } else {
                assert(cur@ =~= Seq::<char>::empty());
                assert(Seq::<Seq<char>>::empty() + words_by(s@.skip(i + 1), mask@.skip(i + 1), seq![])
                    =~= words_by(s@.skip(i + 1), mask@.skip(i + 1), seq![]));
            }
        } else {
            cur.push(c);
        }
    }
    assert(s@.skip(n as int) =~= Seq::<char>::empty());
    if cur.len() > 0 {
        let ghost before = views(out@);
        let ghost word = cur@;
        out.push(cur);
        assert(views(out@) =~= before.push(word));
        assert(before + seq![word] =~= views(out@));
    } else {
        assert(views(out@) + Seq::<Seq<char>>::empty() =~= views(out@));
    }
    out
}

/// `s` with its first character replaced by `head` (empty `s` stays empty).
pub fn replace_head(s: &Vec<char>, head: &Vec<char>) -> (out: Vec<char>)
    ensures
        out@ == with_head(s@, head@),
{
    if s.len() == 0 {
        return Vec::new();
    }
    let mut rest: Vec<char> = Vec::new();
    let n: usize = s.len();
    for i in 1..n
        invariant
            n == s.len(),
            1 <= n,
            rest@ == s@.subrange(1, i as int),
    {
        rest.push(s[i]);
        assert(s@.subrange(1, i as int).push(s@[i as int]) =~= s@.subrange(1, i + 1));
    }
    assert(s@.subrange(1, n as int) =~= s@.drop_first());
    concat(head, &rest)
}

// ---------------------------------------------------------------------------
// With the standard library's answers
// ---------------------------------------------------------------------------

/// Which characters of `s` are whitespace (`char::is_whitespace`).
pub fn whitespace_flags(s: &Vec<char>) -> (mask: Vec<bool>)
    ensures
        mask@ == whitespace_mask(s@),
{
    let mut mask: Vec<bool> = Vec::new();
    let n: usize = s.len();
    for i in 0..n
        invariant
            n == s.len(),
            mask@ == whitespace_mask(s@.take(i as int)),
    {
        let w = is_whitespace(s[i]);
        mask.push(w);
        assert(whitespace_mask(s@.take(i as int)).push(w) =~= whitespace_mask(s@.take(i + 1)));
    }
    assert(s@.take(n as int) =~= s@);
    mask
}

/// `s` without leading and trailing whitespace, as `str::trim` gives it.
pub fn trim_chars(s: &Vec<char>) -> (out: Vec<char>)
    ensures
        out@ == trim(s@),
{
    let mask = whitespace_flags(s);
    trim_masked(s, &mask)
}

/// `s` without leading and trailing whitespace, as `str::trim` gives it.
pub fn trim_text(s: &str) -> (out: String)
    ensures
        out@ == trim(s@),
{
    let chars = chars_of(s);
    let t = trim_chars(&chars);
    string_of(&t)
}

/// The whitespace-separated words of `s`, as `str::split_whitespace` gives them.
pub fn split_words(s: &Vec<char>) -> (out: Vec<Vec<char>>)
    ensures
        views(out@) == words(s@),
{
    let mask = whitespace_flags(s);
    split_masked(s, &mask)
}

/// `s` with its first character mapped to uppercase.
pub fn capitalize_chars(s: &Vec<char>) -> (out: Vec<char>)
    ensures
        out@ == upper_first(s@),
{
    if s.len() == 0 {
        return Vec::new();
    }
    let head = upper_mapping(s[0]);
    replace_head(s, &head)
}

/// `s` with its first character made uppercase (`char::to_uppercase`) and the
/// rest unchanged; the empty string stays empty.
pub fn capitalize(s: &str) -> (out: String)
    ensures
        out@ == upper_first(s@),
{
    let chars = chars_of(s);
    let up = capitalize_chars(&chars);
    string_of(&up)
}

/// How a file name is shown in a menu (see [`display_name`]).
pub fn format_chars(chars: &Vec<char>) -> (out: Vec<char>)
    ensures
        out@ == display_name(chars@),
{
    let spaced = swap_chars(chars, '_', ' ');
    let head = before_first_char(&spaced, '.');
    let ws = split_words(&head);
    let mut caps: Vec<Vec<char>> = Vec::new();
    let n: usize = ws.len();
    let ghost target = words(head@).map_values(|w: Seq<char>| upper_first(w));
    for i in 0..n
        invariant
            n == ws.len(),
            views(ws@) == words(head@),
            target == words(head@).map_values(|w: Seq<char>| upper_first(w)),
            views(caps@) == target.take(i as int),
    {
        let ghost before = views(caps@);
        let w = capitalize_chars(&ws[i]);
        let ghost wv = w@;
        assert(views(ws@)[i as int] == ws@[i as int]@);
        assert(wv == target[i as int]);
        caps.push(w);
        assert(views(caps@) =~= before.push(wv));
        assert(target.take(i as int).push(wv) =~= target.take(i + 1));
    }
    assert(views(caps@) =~= target);
    let sep: Vec<char> = vec![' '];
    assert(sep@ =~= seq![' ']);
    join_parts(&caps, &sep)
}

/// How a file name is shown in a menu: `_` read as a space, the part from the
/// first `.` dropped, and the remaining words capitalised and joined by single
/// spaces. For example `my_list.json` is shown as `My List`.
pub fn format_string(input: String) -> (out: String)
    ensures
        out@ == display_name(input@),
{
    let chars = chars_of(input.as_str());
    let shown = format_chars(&chars);
    string_of(&shown)
}

// ---------------------------------------------------------------------------
// Laws
// ---------------------------------------------------------------------------

/// Law: marks appended to a mask that are all set leave the trimmed text as
/// it was.
pub proof fn lemma_trim_by_ignores_marked_tail(x: Seq<char>, mx: Seq<bool>, w: Seq<char>, mw: Seq<bool>)
    requires
        mx.len() == x.len(),
        mw.len() == w.len(),
        forall|i: int| 0 <= i < mw.len() ==> #[trigger] mw[i],
    ensures
        trim_by(x + w, mx + mw) == trim_by(x, mx),
{
    let m = mx + mw;
    lemma_mask_counts(mx);
    if leading(mx) == mx.len() {
        assert forall|j: int| 0 <= j < m.len() implies #[trigger] m[j] by {
            if j < mx.len() {
                assert(m[j] == mx[j]);
            } else {
                assert(m[j] == mw[j - mx.len()]);
            }
        }
        lemma_leading_is(m, m.len() as int);
    } else {
        let l = leading(mx) as int;
        assert forall|j: int| 0 <= j < l implies #[trigger] m[j] by {
            assert(m[j] == mx[j]);
        }
        assert(m[l] == mx[l]);
        lemma_leading_is(m, l);
        let t = trailing(mx) as int + mw.len();
        assert forall|j: int| m.len() - t <= j < m.len() implies #[trigger] m[j] by {
            if j < mx.len() {
                assert(m[j] == mx[j]);
            } else {
                assert(m[j] == mw[j - mx.len()]);
            }
        }
        assert(trailing(mx) < mx.len());
        assert(m[m.len() - 1 - t] == mx[mx.len() - 1 - trailing(mx)]);
        lemma_trailing_is(m, t);
        assert((x + w).subrange(l, (x + w).len() - t) =~= x.subrange(l, x.len() - trailing(mx)));
    }
}

/// Law: whitespace appended to a text does not change what trimming gives.
pub proof fn lemma_trim_ignores_trailing_whitespace(x: Seq<char>, w: Seq<char>)
    requires
        all_whitespace(w),
    ensures
        trim(x + w) == trim(x),
{
    assert(whitespace_mask(x + w) =~= whitespace_mask(x) + whitespace_mask(w));
    lemma_trim_by_ignores_marked_tail(x, whitespace_mask(x), w, whitespace_mask(w));
}

/// The ASCII uppercase of an ASCII character is ASCII and its own uppercase,
/// and is none of whitespace, `_` and `.` unless the character was.
proof fn lemma_ascii_upper(c: char)
    requires
        is_ascii_char(c),
    ensures
        is_ascii_char(ascii_upper_char(c)),
        ascii_upper_char(ascii_upper_char(c)) == ascii_upper_char(c),
        white_space(ascii_upper_char(c)) == white_space(c),
        (ascii_upper_char(c) == '_') == (c == '_'),
        (ascii_upper_char(c) == '.') == (c == '.'),
{
    if 'a' <= c && c <= 'z' {
        let u = ((c as u32) - 32) as char;
        assert(u as u32 == (c as u32) - 32);
        assert('A' <= u && u <= 'Z');
    }
}

/// Law: capitalising twice is capitalising once, when the text starts with
/// an ASCII character (or is empty).
pub proof fn lemma_capitalize_idempotent(s: Seq<char>)
    requires
        s.len() > 0 ==> is_ascii_char(s[0]),
    ensures
        upper_first(upper_first(s)) == upper_first(s),
{
    if s.len() > 0 {
        lemma_ascii_upper(s[0]);
        let once = upper_first(s);
        assert(once =~= seq![ascii_upper_char(s[0])] + s.drop_first());
        assert(once[0] == ascii_upper_char(s[0]));
        assert(once.drop_first() =~= s.drop_first());
        assert(upper_first(once) =~= once);
    }
}

/// A character that can stand in a shown word: ASCII, not whitespace, not
/// `_` and not `.`.
pub open spec fn plain_char(c: char) -> bool {
    is_ascii_char(c) && !white_space(c) && c != '_' && c != '.'
}

/// The words of a text whose characters are whitespace or plain are
/// non-empty and plain.
proof fn lemma_words_plain(s: Seq<char>, cur: Seq<char>)
    requires
        forall|i: int| 0 <= i < s.len() ==> white_space(#[trigger] s[i]) || plain_char(s[i]),
        forall|j: int| 0 <= j < cur.len() ==> plain_char(#[trigger] cur[j]),
    ensures
        forall|k: int| 0 <= k < words_by(s, whitespace_mask(s), cur).len() ==> {
            let w = #[trigger] words_by(s, whitespace_mask(s), cur)[k];
            w.len() > 0 && forall|j: int| 0 <= j < w.len() ==> plain_char(#[trigger] w[j])
        },
    decreases s.len(),
{
    if s.len() == 0 {
        let all = words_by(s, whitespace_mask(s), cur);
        assert forall|k: int| 0 <= k < all.len() implies {
            let w = #[trigger] all[k];
            w.len() > 0 && forall|j: int| 0 <= j < w.len() ==> plain_char(#[trigger] w[j])
        } by {
            assert(all[k] == cur);
        }
    } else {
        let rest = s.drop_first();
        assert(whitespace_mask(s).drop_first() =~= whitespace_mask(rest));
        assert(whitespace_mask(s)[0] == white_space(s[0]));
        assert forall|i: int| 0 <= i < rest.len() implies white_space(#[trigger] rest[i]) || plain_char(rest[i]) by {
            assert(rest[i] == s[i + 1]);
        }
        if white_space(s[0]) {
            lemma_words_plain(rest, seq![]);
            let flush: Seq<Seq<char>> = if cur.len() > 0 { seq![cur] } else { seq![] };
            let tail = words_by(rest, whitespace_mask(rest), seq![]);
            let all = words_by(s, whitespace_mask(s), cur);
            assert(all == flush + tail);
            assert forall|k: int| 0 <= k < all.len() implies {
                let w = #[trigger] all[k];
                w.len() > 0 && forall|j: int| 0 <= j < w.len() ==> plain_char(#[trigger] w[j])
            } by {
                if k < flush.len() {
                    assert(all[k] == cur);
                } else {
                    assert(all[k] == tail[k - flush.len()]);
                }
            }
        } else {
            let next = cur.push(s[0]);
            assert forall|j: int| 0 <= j < next.len() implies plain_char(#[trigger] next[j]) by {
                if j < cur.len() {
                    assert(next[j] == cur[j]);
                }
            }
            lemma_words_plain(rest, next);
            assert(words_by(s, whitespace_mask(s), cur) == words_by(rest, whitespace_mask(rest), next));
        }
    }
}

/// A text without whitespace, after the letters `cur`, is one word.
proof fn lemma_words_single(w: Seq<char>, cur: Seq<char>)
    requires
        forall|j: int| 0 <= j < w.len() ==> !white_space(#[trigger] w[j]),
        cur.len() + w.len() > 0,
    ensures
        words_by(w, whitespace_mask(w), cur) == seq![cur + w],
    decreases w.len(),
{
    if w.len() == 0 {
        assert(cur + w =~= cur);
    } else {
        let rest = w.drop_first();
        assert(whitespace_mask(w).drop_first() =~= whitespace_mask(rest));
        assert(!white_space(w[0]));
        assert forall|j: int| 0 <= j < rest.len() implies !white_space(#[trigger] rest[j]) by {
            assert(rest[j] == w[j + 1]);
        }
        lemma_words_single(rest, cur.push(w[0]));
        assert(cur.push(w[0]) + rest =~= cur + w);
    }
}

/// A space splits the words: those of `x` (after `cur`), then those of `y`.
proof fn lemma_words_split_at_space(x: Seq<char>, y: Seq<char>, cur: Seq<char>)
    ensures
        words_by(x + seq![' '] + y, whitespace_mask(x + seq![' '] + y), cur)
            == words_by(x, whitespace_mask(x), cur) + words_by(y, whitespace_mask(y), seq![]),
    decreases x.len(),
{
    let all = x + seq![' '] + y;
    assert(whitespace_mask(all).drop_first() =~= whitespace_mask(all.drop_first()));
    if x.len() == 0 {
        assert(all[0] == ' ');
        assert(white_space(' '));
        assert(all.drop_first() =~= y);
    } else {
        let rest = x.drop_first();
        assert(all.drop_first() =~= rest + seq![' '] + y);
        assert(all[0] == x[0]);
        assert(whitespace_mask(x).drop_first() =~= whitespace_mask(rest));
        if white_space(x[0]) {
            lemma_words_split_at_space(rest, y, seq![]);
            let flush: Seq<Seq<char>> = if cur.len() > 0 { seq![cur] } else { seq![] };
            assert(flush + (words_by(rest, whitespace_mask(rest), seq![]) + words_by(y, whitespace_mask(y), seq![]))
                =~= (flush + words_by(rest, whitespace_mask(rest), seq![])) + words_by(y, whitespace_mask(y), seq![]));
        } else {
            lemma_words_split_at_space(rest, y, cur.push(x[0]));
        }
    }
}

/// Words without whitespace joined by single spaces split back into the
/// same words.
proof fn lemma_words_of_join(u: Seq<Seq<char>>)
    requires
        forall|k: int| 0 <= k < u.len() ==> (#[trigger] u[k]).len() > 0,
        forall|k: int, j: int| 0 <= k < u.len() && 0 <= j < u[k].len() ==> !white_space(#[trigger] u[k][j]),
    ensures
        words(join(u, seq![' '])) == u,
    decreases u.len(),
{
    if u.len() == 0 {
    } else if u.len() == 1 {
        assert(u[0].len() > 0);
        assert forall|j: int| 0 <= j < u[0].len() implies !white_space(#[trigger] u[0][j]) by {}
        lemma_words_single(u[0], seq![]);
        assert(Seq::<char>::empty() + u[0] =~= u[0]);
        assert(seq![u[0]] =~= u);
    } else {
        let front = u.drop_last();
        assert forall|k: int| 0 <= k < front.len() implies (#[trigger] front[k]).len() > 0 by {
            assert(front[k] == u[k]);
        }
        assert forall|k: int, j: int| 0 <= k < front.len() && 0 <= j < front[k].len() implies !white_space(#[trigger] front[k][j]) by {
            assert(front[k] == u[k]);
        }
        lemma_words_of_join(front);
        let last = u.last();
        assert(last == u[u.len() - 1]);
        assert forall|j: int| 0 <= j < last.len() implies !white_space(#[trigger] last[j]) by {}
        lemma_words_single(last, seq![]);
        assert(Seq::<char>::empty() + last =~= last);
        lemma_words_split_at_space(join(front, seq![' ']), last, seq![]);
        assert(front + seq![last] =~= u);
    }
}

/// Joining by spaces brings in no character but the space.
proof fn lemma_join_chars(u: Seq<Seq<char>>, i: int)
    requires
        0 <= i < join(u, seq![' ']).len(),
    ensures
        join(u, seq![' '])[i] == ' ' || exists|k: int, j: int|
            0 <= k < u.len() && 0 <= j < u[k].len() && join(u, seq![' '])[i] == #[trigger] u[k][j],
    decreases u.len(),
{
    let d = join(u, seq![' ']);
    if u.len() == 1 {
        assert(d[i] == u[0][i]);
    } else if u.len() >= 2 {
        let front = join(u.drop_last(), seq![' ']);
        if i < front.len() {
            assert(d[i] == front[i]);
            lemma_join_chars(u.drop_last(), i);
            if front[i] != ' ' {
                let (k, j) = choose|k: int, j: int|
                    0 <= k < u.drop_last().len() && 0 <= j < u.drop_last()[k].len() && front[i] == #[trigger] u.drop_last()[k][j];
                assert(u.drop_last()[k] == u[k]);
                assert(d[i] == u[k][j]);
            }
        } else if i > front.len() {
            let j = i - front.len() - 1;
            assert(d[i] == u.last()[j]);
            assert(u.last() == u[u.len() - 1]);
            assert(d[i] == u[u.len() - 1][j]);
        }
    }
}

/// A text without `stop` is all before its first `stop`.
proof fn lemma_before_first_none(s: Seq<char>, stop: char)
    requires
        forall|i: int| 0 <= i < s.len() ==> #[trigger] s[i] != stop,
    ensures
        before_first(s, stop) == s,
    decreases s.len(),
{
    if s.len() > 0 {
        assert forall|i: int| 0 <= i < s.drop_first().len() implies #[trigger] s.drop_first()[i] != stop by {
            assert(s.drop_first()[i] == s[i + 1]);
        }
        lemma_before_first_none(s.drop_first(), stop);
        assert(seq![s[0]] + s.drop_first() =~= s);
    }
}

/// What comes before the first `stop` is a start of the text without `stop`.
proof fn lemma_before_first_prefix(s: Seq<char>, stop: char)
    ensures
        before_first(s, stop).len() <= s.len(),
        forall|i: int| 0 <= i < before_first(s, stop).len()
            ==> #[trigger] before_first(s, stop)[i] == s[i] && s[i] != stop,
    decreases s.len(),
{
    if s.len() > 0 && s[0] != stop {
        lemma_before_first_prefix(s.drop_first(), stop);
        let r = before_first(s, stop);
        assert forall|i: int| 0 <= i < r.len() implies #[trigger] r[i] == s[i] && s[i] != stop by {
            if i > 0 {
                assert(r[i] == before_first(s.drop_first(), stop)[i - 1]);
                assert(s.drop_first()[i - 1] == s[i]);
            }
        }
    }
}

/// Law: for names written in ASCII, the shown name holds no `_` and no `.`,
/// its words are non-empty and separated by single spaces, and showing it
/// again changes nothing.
pub proof fn lemma_display_name_idempotent(s: Seq<char>)
    requires
        forall|i: int| 0 <= i < s.len() ==> is_ascii_char(#[trigger] s[i]),
    ensures
        forall|i: int| 0 <= i < display_name(s).len()
            ==> #[trigger] display_name(s)[i] != '_' && display_name(s)[i] != '.',
        forall|k: int| 0 <= k < words(display_name(s)).len() ==> (#[trigger] words(display_name(s))[k]).len() > 0,
        display_name(s) == join(words(display_name(s)), seq![' ']),
        display_name(display_name(s)) == display_name(s),
{
    let t = swap_char(s, '_', ' ');
    let h = before_first(t, '.');
    lemma_before_first_prefix(t, '.');
    assert forall|i: int| 0 <= i < h.len() implies white_space(#[trigger] h[i]) || plain_char(h[i]) by {
        assert(h[i] == t[i]);
        assert(t[i] == (if s[i] == '_' { ' ' } else { s[i] }));
        assert(is_ascii_char(s[i]));
        assert(white_space(' '));
    }
    lemma_words_plain(h, seq![]);
    let w = words(h);
    let u = w.map_values(|x: Seq<char>| upper_first(x));
    assert forall|k: int| 0 <= k < u.len() implies (#[trigger] u[k]).len() > 0
        && (forall|j: int| 0 <= j < u[k].len() ==> plain_char(#[trigger] u[k][j]))
        && upper_first(u[k]) == u[k] by {
        let x = w[k];
        assert(x.len() > 0 && forall|j: int| 0 <= j < x.len() ==> plain_char(#[trigger] x[j]));
        assert(plain_char(x[0]));
        lemma_ascii_upper(x[0]);
        assert(u[k] =~= seq![ascii_upper_char(x[0])] + x.drop_first());
        assert forall|j: int| 0 <= j < u[k].len() implies plain_char(#[trigger] u[k][j]) by {
            if j > 0 {
                assert(u[k][j] == x[j]);
            }
        }
        lemma_capitalize_idempotent(x);
    }
    let d = join(u, seq![' ']);
    assert(d == display_name(s));
    assert forall|i: int| 0 <= i < d.len() implies #[trigger] d[i] != '_' && d[i] != '.' by {
        lemma_join_chars(u, i);
        if d[i] != ' ' {
            let (k, j) = choose|k: int, j: int| 0 <= k < u.len() && 0 <= j < u[k].len() && d[i] == #[trigger] u[k][j];
            assert(plain_char(u[k][j]));
        }
    }
    assert(swap_char(d, '_', ' ') =~= d);
    lemma_before_first_none(d, '.');
    assert forall|k: int, j: int| 0 <= k < u.len() && 0 <= j < u[k].len() implies !white_space(#[trigger] u[k][j]) by {
        assert(plain_char(u[k][j]));
    }
    lemma_words_of_join(u);
    assert(u.map_values(|x: Seq<char>| upper_first(x)) =~= u);
}

} // verus!
