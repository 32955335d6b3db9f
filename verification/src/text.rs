//! Character-level text operations: replacing, removing, cutting, joining,
//! comparing and lowering, each with its mathematical meaning.
use vstd::prelude::*;

use crate::unicode::push_char;

verus! {

// ---------------------------------------------------------------------------
// Specifications
// ---------------------------------------------------------------------------

/// `s` with every `from` replaced by `to`.
pub open spec fn swap_char(s: Seq<char>, from: char, to: char) -> Seq<char> {
    s.map_values(|c: char| if c == from { to } else { c })
}

/// `s` with every occurrence of `gone` removed.
pub open spec fn drop_char(s: Seq<char>, gone: char) -> Seq<char>
    decreases s.len(),
{
    if s.len() == 0 {
        s
    } else if s[0] == gone {
        drop_char(s.drop_first(), gone)
    } else {
        seq![s[0]] + drop_char(s.drop_first(), gone)
    }
}

/// `s` with every occurrence of the two-character pattern `a b` removed,
/// scanning from the left as `str::replace` does.
pub open spec fn drop_pair(s: Seq<char>, a: char, b: char) -> Seq<char>
    decreases s.len(),
{
    if s.len() >= 2 && s[0] == a && s[1] == b {
        drop_pair(s.skip(2), a, b)
    } else if s.len() == 0 {
        s
    } else {
        seq![s[0]] + drop_pair(s.drop_first(), a, b)
    }
}

/// Whether the pattern `a b` occurs in `s`.
pub open spec fn has_pair(s: Seq<char>, a: char, b: char) -> bool {
    exists|i: int| 0 <= i && i + 1 < s.len() && s[i] == a && #[trigger] s[i + 1] == b
}

/// The part of `s` before its first `stop` (all of `s` where it has none).
pub open spec fn before_first(s: Seq<char>, stop: char) -> Seq<char>
    decreases s.len(),
{
    if s.len() == 0 {
        s
    } else if s[0] == stop {
        seq![]
    } else {
        seq![s[0]] + before_first(s.drop_first(), stop)
    }
}

/// The parts joined, with `sep` between neighbours.
pub open spec fn join(parts: Seq<Seq<char>>, sep: Seq<char>) -> Seq<char>
    decreases parts.len(),
{
    if parts.len() == 0 {
        seq![]
    } else if parts.len() == 1 {
        parts[0]
    } else {
        join(parts.drop_last(), sep) + sep + parts.last()
    }
}

/// `c` with ASCII `A`..`Z` lowered to `a`..`z`.
pub open spec fn ascii_lower_char(c: char) -> char {
    if 'A' <= c && c <= 'Z' {
        ((c as u32) + 32) as char
    } else {
        c
    }
}

/// `s` with its ASCII capitals lowered.
pub open spec fn ascii_lower(s: Seq<char>) -> Seq<char> {
    s.map_values(|c: char| ascii_lower_char(c))
}

/// The decimal digit for `d < 10`.
pub open spec fn digit_char(d: nat) -> char {
    if d == 0 { '0' }
    else if d == 1 { '1' }
    else if d == 2 { '2' }
    else if d == 3 { '3' }
    else if d == 4 { '4' }
    else if d == 5 { '5' }
    else if d == 6 { '6' }
    else if d == 7 { '7' }
    else if d == 8 { '8' }
    else { '9' }
}

/// The decimal notation of `n`, without leading zeros.
pub open spec fn decimal(n: nat) -> Seq<char>
    decreases n,
{
    if n < 10 {
        seq![digit_char(n)]
    } else {
        decimal(n / 10).push(digit_char(n % 10))
    }
}

/// The character sequences held by a list of character vectors.
pub open spec fn views(v: Seq<Vec<char>>) -> Seq<Seq<char>> {
    v.map_values(|w: Vec<char>| w@)
}

/// The character sequences held by a list of strings.
pub open spec fn views_of_strings(v: Seq<String>) -> Seq<Seq<char>> {
    v.map_values(|s: String| s@)
}

// ---------------------------------------------------------------------------
// Conversions between strings and characters
// ---------------------------------------------------------------------------

/// The characters of `s`, in order.
pub fn chars_of(s: &str) -> (out: Vec<char>)
    ensures
        out@ == s@,
{
    let mut out: Vec<char> = Vec::new();
    for c in it: s.chars()
        invariant
            out@ == it.seq().take(it.index() as int),
            it.seq() == s@,
    {
        out.push(c);
    }
    out
}

/// The string made of `chars`.
pub fn string_of(chars: &Vec<char>) -> (out: String)
    ensures
        out@ == chars@,
{
    let mut out = String::new();
    let n: usize = chars.len();
    for i in 0..n
        invariant
            n == chars.len(),
            out@ == chars@.take(i as int),
    {
        push_char(&mut out, chars[i]);
        assert(chars@.take(i as int).push(chars@[i as int]) =~= chars@.take(i + 1));
    }
    assert(chars@.take(n as int) =~= chars@);
    out
}

/// `a` followed by `b`.
pub fn concat(a: &Vec<char>, b: &Vec<char>) -> (out: Vec<char>)
    ensures
        out@ == a@ + b@,
{
    let mut out = a.clone();
    let n: usize = b.len();
    for i in 0..n
        invariant
            n == b.len(),
            out@ == a@ + b@.take(i as int),
    {
        out.push(b[i]);
        assert(a@ + b@.take(i as int).push(b@[i as int]) =~= a@ + b@.take(i + 1));
    }
    assert(b@.take(n as int) =~= b@);
    out
}

// ---------------------------------------------------------------------------
// Character maps and removals
// ---------------------------------------------------------------------------

/// Every `from` in `s` replaced by `to`.
pub fn swap_chars(s: &Vec<char>, from: char, to: char) -> (out: Vec<char>)
    ensures
        out@ == swap_char(s@, from, to),
{
    let mut out: Vec<char> = Vec::new();
    let n: usize = s.len();
    for i in 0..n
        invariant
            n == s.len(),
            out@ == swap_char(s@.take(i as int), from, to),
    {
        let c = s[i];
        out.push(if c == from { to } else { c });
        assert(swap_char(s@.take(i as int), from, to).push(if c == from { to } else { c })
            =~= swap_char(s@.take(i + 1), from, to));
    }
    assert(s@.take(n as int) =~= s@);
    out
}

/// Every `gone` in `s` removed.
pub fn drop_chars(s: &Vec<char>, gone: char) -> (out: Vec<char>)
    ensures
        out@ == drop_char(s@, gone),
{
    let mut out: Vec<char> = Vec::new();
    let n: usize = s.len();
    assert(s@.skip(0) =~= s@);
    for i in 0..n
        invariant
            n == s.len(),
            drop_char(s@, gone) == out@ + drop_char(s@.skip(i as int), gone),
    {
        assert(s@.skip(i as int).drop_first() =~= s@.skip(i + 1));
        let c = s[i];
        let ghost before = out@;
        if c != gone {
            out.push(c);
            assert(before + (seq![c] + drop_char(s@.skip(i + 1), gone))
                =~= out@ + drop_char(s@.skip(i + 1), gone));
        }
    }
    assert(s@.skip(n as int) =~= Seq::<char>::empty());
    out
}

/// Every `a b` pair in `s` removed, scanning from the left.
pub fn drop_pairs(s: &Vec<char>, a: char, b: char) -> (out: Vec<char>)
    ensures
        out@ == drop_pair(s@, a, b),
{
    let mut out: Vec<char> = Vec::new();
    let n: usize = s.len();
    let mut i: usize = 0;
    assert(s@.skip(0) =~= s@);
    while i < n
        invariant
            n == s.len(),
            i <= n,
            drop_pair(s@, a, b) == out@ + drop_pair(s@.skip(i as int), a, b),
        decreases n - i,
    {
        let ghost rest = s@.skip(i as int);
        if i + 1 < n && s[i] == a && s[i + 1] == b {
            assert(rest.skip(2) =~= s@.skip(i + 2));
            i = i + 2;
        } else {
            assert(rest.drop_first() =~= s@.skip(i + 1));
            let ghost before = out@;
            out.push(s[i]);
            assert(before + (seq![s@[i as int]] + drop_pair(s@.skip(i + 1), a, b))
                =~= out@ + drop_pair(s@.skip(i + 1), a, b));
            i = i + 1;
        }
    }
    assert(s@.skip(n as int) =~= Seq::<char>::empty());
    out
}

/// The part of `s` before its first `stop`.
pub fn before_first_char(s: &Vec<char>, stop: char) -> (out: Vec<char>)
    ensures
        out@ == before_first(s@, stop),
{
    let mut out: Vec<char> = Vec::new();
    let n: usize = s.len();
    let mut i: usize = 0;
    assert(s@.skip(0) =~= s@);
    while i < n
        invariant
            n == s.len(),
            i <= n,
            before_first(s@, stop) == out@ + before_first(s@.skip(i as int), stop),
        decreases n - i,
    {
        if s[i] == stop {
            assert(before_first(s@.skip(i as int), stop) =~= Seq::<char>::empty());
            assert(out@ + Seq::<char>::empty() =~= out@);
            return out;
        }
        assert(s@.skip(i as int).drop_first() =~= s@.skip(i + 1));
        let ghost before = out@;
        out.push(s[i]);
        assert(before + (seq![s@[i as int]] + before_first(s@.skip(i + 1), stop))
            =~= out@ + before_first(s@.skip(i + 1), stop));
        i = i + 1;
    }
    assert(s@.skip(n as int) =~= Seq::<char>::empty());
    assert(out@ + Seq::<char>::empty() =~= out@);
    out
}

/// The parts joined, with `sep` between neighbours.
pub fn join_parts(parts: &Vec<Vec<char>>, sep: &Vec<char>) -> (out: Vec<char>)
    ensures
        out@ == join(views(parts@), sep@),
{
    let mut out: Vec<char> = Vec::new();
    let n: usize = parts.len();
    let ghost all = views(parts@);
    for i in 0..n
        invariant
            n == parts.len(),
            all == views(parts@),
            out@ == join(all.take(i as int), sep@),
    {
        assert(all.take(i + 1).drop_last() =~= all.take(i as int));
        assert(all[i as int] == parts@[i as int]@);
        if i == 0 {
            assert(all.take(1).len() == 1);
            out = concat(&out, &parts[i]);
            assert(out@ =~= all.take(1)[0]);
        } else {
            out = concat(&out, sep);
            out = concat(&out, &parts[i]);
        }
    }
    assert(all.take(n as int) =~= all);
    out
}

/// `c` with ASCII `A`..`Z` lowered, as `char::to_ascii_lowercase` does.
pub fn lower_ascii_char(c: char) -> (out: char)
    ensures
        out == ascii_lower_char(c),
{
    if 'A' <= c && c <= 'Z' {
        let b: u8 = (c as u8) + 32;
        b as char
    } else {
        c
    }
}

/// `s` with its ASCII capitals lowered, as `str::to_ascii_lowercase` does.
pub fn lower_ascii(s: &Vec<char>) -> (out: Vec<char>)
    ensures
        out@ == ascii_lower(s@),
{
    let mut out: Vec<char> = Vec::new();
    let n: usize = s.len();
    for i in 0..n
        invariant
            n == s.len(),
            out@ == ascii_lower(s@.take(i as int)),
    {
        let c = lower_ascii_char(s[i]);
        out.push(c);
        assert(ascii_lower(s@.take(i as int)).push(c) =~= ascii_lower(s@.take(i + 1)));
    }
    assert(s@.take(n as int) =~= s@);
    out
}

/// The decimal digit character for `d`.
pub fn digit(d: u64) -> (c: char)
    requires
        d < 10,
    ensures
        c == digit_char(d as nat),
{
    if d == 0 { '0' }
    else if d == 1 { '1' }
    else if d == 2 { '2' }
    else if d == 3 { '3' }
    else if d == 4 { '4' }
    else if d == 5 { '5' }
    else if d == 6 { '6' }
    else if d == 7 { '7' }
    else if d == 8 { '8' }
    else { '9' }
}

/// Appends the decimal notation of `n` to `out`.
pub fn push_decimal(out: &mut Vec<char>, n: u64)
    ensures
        final(out)@ == old(out)@ + decimal(n as nat),
    decreases n,
{
    if n >= 10 {
        push_decimal(out, n / 10);
    }
    let d = digit(n % 10);
    out.push(d);
    proof {
        if n >= 10 {
            assert(old(out)@ + decimal((n / 10) as nat).push(d) =~= old(out)@ + decimal(n as nat));
        } else {
            assert(old(out)@.push(d) =~= old(out)@ + decimal(n as nat));
        }
    }
}

/// Whether `a` and `b` hold the same characters.
pub fn same_text(a: &str, b: &str) -> (same: bool)
    ensures
        same == (a@ == b@),
{
    let x = chars_of(a);
    let y = chars_of(b);
    if x.len() != y.len() {
        return false;
    }
    let n: usize = x.len();
    for i in 0..n
        invariant
            n == x.len(),
            n == y.len(),
            x@ == a@,
            y@ == b@,
            forall|j: int| 0 <= j < i ==> x@[j] == y@[j],
    {
        if x[i] != y[i] {
            return false;
        }
    }
    assert(x@ =~= y@);
    true
}

/// Whether `list` holds `s`.
pub fn contains_text(list: &Vec<String>, s: &str) -> (found: bool)
    ensures
        found == views_of_strings(list@).contains(s@),
{
    let n: usize = list.len();
    for i in 0..n
        invariant
            n == list.len(),
            forall|j: int| 0 <= j < i ==> list@[j]@ != s@,
    {
        if same_text(list[i].as_str(), s) {
            assert(views_of_strings(list@)[i as int] == s@);
            return true;
        }
    }
    assert forall|j: int| 0 <= j < views_of_strings(list@).len() implies views_of_strings(list@)[j] != s@ by {
        assert(views_of_strings(list@)[j] == list@[j]@);
    }
    false
}

// ---------------------------------------------------------------------------
// Laws
// ---------------------------------------------------------------------------

/// Law: removing the pattern `a b` from a concatenation removes it from each
/// part, unless an occurrence straddles the seam.
pub proof fn lemma_drop_pair_concat(x: Seq<char>, y: Seq<char>, a: char, b: char)
    requires
        !(x.len() > 0 && y.len() > 0 && x.last() == a && y[0] == b),
    ensures
        drop_pair(x + y, a, b) == drop_pair(x, a, b) + drop_pair(y, a, b),
    decreases x.len(),
{
    if x.len() == 0 {
        assert(x + y =~= y);
        assert(drop_pair(x, a, b) + drop_pair(y, a, b) =~= drop_pair(y, a, b));
    } else if x.len() >= 2 && x[0] == a && x[1] == b {
        assert((x + y).skip(2) =~= x.skip(2) + y);
        if x.skip(2).len() > 0 {
            assert(x.skip(2).last() == x.last());
        }
        lemma_drop_pair_concat(x.skip(2), y, a, b);
        assert((x + y)[0] == a && (x + y)[1] == b);
    } else {
        assert((x + y).drop_first() =~= x.drop_first() + y);
        if x.drop_first().len() > 0 {
            assert(x.drop_first().last() == x.last());
        }
        lemma_drop_pair_concat(x.drop_first(), y, a, b);
        assert((x + y)[0] == x[0]);
        if x.len() >= 2 {
            assert((x + y)[1] == x[1]);
        } else {
            assert(x.last() == x[0]);
        }
        assert(seq![x[0]] + (drop_pair(x.drop_first(), a, b) + drop_pair(y, a, b))
            =~= (seq![x[0]] + drop_pair(x.drop_first(), a, b)) + drop_pair(y, a, b));
    }
}

/// Law: text in which the pattern `a b` does not occur is left as it is.
pub proof fn lemma_drop_pair_absent(x: Seq<char>, a: char, b: char)
    requires
        !has_pair(x, a, b),
    ensures
        drop_pair(x, a, b) == x,
    decreases x.len(),
{
    if x.len() == 0 {
    } else {
        if x.len() >= 2 && x[0] == a {
            assert(x[0int + 1] == x[1]);
        }
        assert(!has_pair(x.drop_first(), a, b)) by {
            if has_pair(x.drop_first(), a, b) {
                let i = choose|i: int| 0 <= i && i + 1 < x.drop_first().len() && x.drop_first()[i] == a
                    && #[trigger] x.drop_first()[i + 1] == b;
                assert(x[i + 1] == a && x[(i + 1) + 1] == b);
            }
        }
        lemma_drop_pair_absent(x.drop_first(), a, b);
        assert(seq![x[0]] + x.drop_first() =~= x);
    }
}

/// Law: removing `a b` from the pattern itself leaves nothing.
pub proof fn lemma_drop_pair_of_pattern(a: char, b: char)
    ensures
        drop_pair(seq![a, b], a, b) == Seq::<char>::empty(),
{
    let p = seq![a, b];
    assert(p.len() == 2 && p[0] == a && p[1] == b);
    assert(p.skip(2) =~= Seq::<char>::empty());
    assert(drop_pair(p.skip(2), a, b) == Seq::<char>::empty());
}

/// All of `parts`, one after another (`join` with an empty separator).
pub fn concat_all(parts: &Vec<String>) -> (out: String)
    ensures
        out@ == join(views_of_strings(parts@), seq![]),
{
    let mut out = String::new();
    let n: usize = parts.len();
    let ghost all = views_of_strings(parts@);
    for i in 0..n
        invariant
            n == parts.len(),
            all == views_of_strings(parts@),
            out@ == join(all.take(i as int), seq![]),
    {
        assert(all.take(i + 1).drop_last() =~= all.take(i as int));
        assert(all[i as int] == parts@[i as int]@);
        if i == 0 {
            out.append(parts[i].as_str());
            assert(all.take(1).len() == 1);
            assert(out@ =~= all.take(1)[0]);
        } else {
            let ghost before = out@;
            out.append(parts[i].as_str());
            assert(out@ =~= before + Seq::<char>::empty() + all.take(i + 1).last());
        }
    }
    assert(all.take(n as int) =~= all);
    out
}


} // verus!
