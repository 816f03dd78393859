//! Verified text utilities.
//!
//! The rewrite passes operate on character vectors; this module provides the
//! conversions between `String`/`&str` and `Vec<char>`, together with exact
//! substring search and leftmost non-overlapping replacement, the two
//! operations almost every pass is built from.

use vstd::prelude::*;
use vstd::string::*;

verus! {

/// Relies on String::push: appends exactly the given character to the string.
#[verifier::external_body]
pub(crate) fn push_char(s: &mut String, c: char)
    ensures
        final(s)@ == old(s)@.push(c),
{
    s.push(c);
}

/// The characters of `s`, as a vector.
pub fn chars_of(s: &str) -> (r: Vec<char>)
    ensures
        r@ == s@,
{
    let n = s.unicode_len();
    let mut r: Vec<char> = Vec::new();
    for i in 0..n
        invariant
            n == s@.len(),
            r@ =~= s@.subrange(0, i as int),
    {
        r.push(s.get_char(i));
    }
    assert(r@ =~= s@);
    r
}

/// The string holding exactly the characters of `v`.
pub fn string_of(v: &Vec<char>) -> (r: String)
    ensures
        r@ == v@,
{
    let mut r = String::new();
    let n = v.len();
    for i in 0..n
        invariant
            n == v@.len(),
            r@ =~= v@.subrange(0, i as int),
    {
        push_char(&mut r, v[i]);
    }
    assert(r@ =~= v@);
    r
}

/// The pattern `p` occurs in `s` at position `i`.
pub open spec fn match_at(s: Seq<char>, p: Seq<char>, i: int) -> bool {
    0 <= i && i + p.len() <= s.len() && s.subrange(i, i + p.len()) == p
}

/// Position of the first occurrence of `p` in `s` at or after `i`.
pub open spec fn find_from(s: Seq<char>, p: Seq<char>, i: int) -> Option<int>
    decreases s.len() - i,
{
    if i + p.len() > s.len() {
        None
    } else if match_at(s, p, i) {
        Some(i)
    } else if i >= s.len() {
        None
    } else {
        find_from(s, p, i + 1)
    }
}

/// `p` occurs somewhere in `s`.
pub open spec fn contains_seq(s: Seq<char>, p: Seq<char>) -> bool {
    find_from(s, p, 0) is Some
}

fn is_match_at(v: &Vec<char>, p: &Vec<char>, i: usize) -> (b: bool)
    requires
        i + p@.len() <= v@.len(),
    ensures
        b == match_at(v@, p@, i as int),
{
    let n = p.len();
    let vn = v.len();
    for k in 0..n
        invariant
            n == p@.len(),
            vn == v@.len(),
            i + p@.len() <= v@.len(),
            forall|m: int| 0 <= m < k ==> v@[i + m] == p@[m],
    {
        if v[i + k] != p[k] {
            assert(!match_at(v@, p@, i as int)) by {
                if match_at(v@, p@, i as int) {
                    assert(v@.subrange(i as int, i + p@.len())[k as int] == p@[k as int]);
                }
            };
            return false;
        }
    }
    assert(v@.subrange(i as int, i + p@.len()) =~= p@);
    true
}

/// First occurrence of `p` in `v` at or after `from`, if any.
pub fn find_in(v: &Vec<char>, p: &Vec<char>, from: usize) -> (r: Option<usize>)
    ensures
        match r {
            Some(j) => find_from(v@, p@, from as int) == Some(j as int),
            None => find_from(v@, p@, from as int) is None,
        },
{
    if p.len() == 0 {
        if from <= v.len() {
            proof {
                assert(v@.subrange(from as int, from as int) =~= p@);
            }
            return Some(from);
        } else {
            return None;
        }
    }
    let mut i = from;
    loop
        invariant
            from <= i,
            p@.len() >= 1,
            find_from(v@, p@, from as int) == find_from(v@, p@, i as int),
        decreases v@.len() + 1 - i,
    {
        if p.len() > v.len() || i > v.len() - p.len() {
            return None;
        }
        if is_match_at(v, p, i) {
            return Some(i);
        }
        i += 1;
    }
}

/// Whether `p` occurs in `v`.
pub fn contains_in(v: &Vec<char>, p: &Vec<char>) -> (b: bool)
    ensures
        b == contains_seq(v@, p@),
{
    match find_in(v, p, 0) {
        Some(_) => true,
        None => false,
    }
}

/// Appends `v[lo..hi]` to `out`.
pub fn append_range(out: &mut Vec<char>, v: &Vec<char>, lo: usize, hi: usize)
    requires
        lo <= hi <= v@.len(),
    ensures
        final(out)@ == old(out)@ + v@.subrange(lo as int, hi as int),
{
    for i in lo..hi
        invariant
            lo <= i <= hi <= v@.len(),
            out@ =~= old(out)@ + v@.subrange(lo as int, i as int),
    {
        out.push(v[i]);
        assert(out@ =~= old(out)@ + v@.subrange(lo as int, i + 1));
    }
    assert(out@ =~= old(out)@ + v@.subrange(lo as int, hi as int));
}

/// Appends all of `v` to `out`.
pub fn append_all(out: &mut Vec<char>, v: &Vec<char>)
    ensures
        final(out)@ == old(out)@ + v@,
{
    let n = v.len();
    append_range(out, v, 0, n);
    assert(v@.subrange(0, n as int) =~= v@);
}

/// Appends the characters of the string slice `s` to `out`.
pub fn append_str(out: &mut Vec<char>, s: &str)
    ensures
        final(out)@ == old(out)@ + s@,
{
    let cs = chars_of(s);
    append_all(out, &cs);
}

/// `s` with every leftmost, non-overlapping occurrence of `from` replaced by
/// `to`; `s` itself when `from` is empty.
pub open spec fn replace_seq(s: Seq<char>, from: Seq<char>, to: Seq<char>) -> Seq<char>
    decreases s.len(),
{
    if from.len() == 0 || from.len() > s.len() {
        s
    } else if s.subrange(0, from.len() as int) == from {
        to + replace_seq(s.skip(from.len() as int), from, to)
    } else {
        seq![s[0]] + replace_seq(s.skip(1), from, to)
    }
}

proof fn lemma_replace_step(s: Seq<char>, from: Seq<char>, to: Seq<char>, i: int)
    requires
        0 < from.len(),
        0 <= i,
        i + from.len() <= s.len(),
        match_at(s, from, i),
        forall|m: int| 0 <= m < i ==> !match_at(s, from, m),
    ensures
        replace_seq(s, from, to) == s.subrange(0, i) + to + replace_seq(
            s.skip(i + from.len()),
            from,
            to,
        ),
    decreases i,
{
    if i == 0 {
        assert(s.skip(0).subrange(0, from.len() as int) =~= s.subrange(0, from.len() as int));
        assert(s.subrange(0, from.len() as int) == from);
        assert(s.subrange(0, 0) =~= Seq::<char>::empty());
        assert(s.subrange(0, 0) + to =~= to);
        assert(replace_seq(s, from, to) =~= s.subrange(0, 0) + to + replace_seq(
            s.skip(from.len() as int),
            from,
            to,
        ));
    } else {
        assert(!match_at(s, from, 0));
        assert(s.subrange(0, from.len() as int) != from);
        let t = s.skip(1);
        assert forall|m: int| 0 <= m < i - 1 implies !match_at(t, from, m) by {
            if match_at(t, from, m) {
                assert(t.subrange(m, m + from.len()) =~= s.subrange(m + 1, m + 1 + from.len()));
                assert(match_at(s, from, m + 1));
            }
        }
        assert(t.subrange(i - 1, i - 1 + from.len()) =~= s.subrange(i, i + from.len()));
        assert(match_at(t, from, i - 1));
        lemma_replace_step(t, from, to, i - 1);
        assert(seq![s[0]] + t.subrange(0, i - 1) =~= s.subrange(0, i));
        assert(t.skip(i - 1 + from.len()) =~= s.skip(i + from.len()));
        assert(seq![s[0]] + (t.subrange(0, i - 1) + to + replace_seq(
            t.skip(i - 1 + from.len()),
            from,
            to,
        )) =~= s.subrange(0, i) + to + replace_seq(s.skip(i + from.len()), from, to));
    }
}

proof fn lemma_replace_none(s: Seq<char>, from: Seq<char>, to: Seq<char>)
    requires
        0 < from.len(),
        find_from(s, from, 0) is None,
    ensures
        replace_seq(s, from, to) == s,
    decreases s.len(),
{
    if from.len() > s.len() {
    } else {
        assert(!match_at(s, from, 0)) by {
            lemma_find_from_bounds(s, from, 0, 0);
        }
        assert(s.subrange(0, from.len() as int) != from);
        let t = s.skip(1);
        assert(find_from(t, from, 0) is None) by {
            if find_from(t, from, 0) is Some {
                let j = find_from(t, from, 0)->Some_0;
                lemma_find_from_some(t, from, 0);
                assert(match_at(t, from, j));
                assert(t.subrange(j, j + from.len()) =~= s.subrange(j + 1, j + 1 + from.len()));
                assert(match_at(s, from, j + 1));
                lemma_find_from_none(s, from, 0, j + 1);
            }
        }
        lemma_replace_none(t, from, to);
        assert(seq![s[0]] + t =~= s);
    }
}

/// When `find_from(s, p, i)` yields `j`, there is a match at `j` and none
/// between `i` and `j`.
pub proof fn lemma_find_from_some(s: Seq<char>, p: Seq<char>, i: int)
    requires
        find_from(s, p, i) is Some,
    ensures
        match_at(s, p, find_from(s, p, i)->Some_0),
        i <= find_from(s, p, i)->Some_0,
        forall|m: int| i <= m < find_from(s, p, i)->Some_0 ==> !match_at(s, p, m),
    decreases s.len() - i,
{
    if i + p.len() > s.len() {
    } else if match_at(s, p, i) {
    } else if i >= s.len() {
    } else {
        lemma_find_from_some(s, p, i + 1);
    }
}

/// When `find_from(s, p, i)` yields nothing, there is no match at or after `i`.
pub proof fn lemma_find_from_none(s: Seq<char>, p: Seq<char>, i: int, m: int)
    requires
        find_from(s, p, i) is None,
        i <= m,
    ensures
        !match_at(s, p, m),
    decreases s.len() - i,
{
    if i + p.len() > s.len() {
    } else if match_at(s, p, i) {
    } else if i >= s.len() {
        assert(!match_at(s, p, m));
    } else {
        if m > i {
            lemma_find_from_none(s, p, i + 1, m);
        }
    }
}

proof fn lemma_find_from_bounds(s: Seq<char>, p: Seq<char>, i: int, m: int)
    requires
        find_from(s, p, i) is None,
        i <= m,
    ensures
        !match_at(s, p, m),
{
    lemma_find_from_none(s, p, i, m);
}

/// `v` with every leftmost, non-overlapping occurrence of `from` replaced by
/// `to`.
pub fn replace_in(v: &Vec<char>, from: &Vec<char>, to: &Vec<char>) -> (r: Vec<char>)
    ensures
        r@ == replace_seq(v@, from@, to@),
    decreases v@.len(),
{
    if from.len() == 0 {
        return v.clone();
    }
    match find_in(v, from, 0) {
        None => {
            proof {
                lemma_replace_none(v@, from@, to@);
            }
            v.clone()
        },
        Some(i) => {
            proof {
                lemma_find_from_some(v@, from@, 0);
                lemma_replace_step(v@, from@, to@, i as int);
            }
            let vn = v.len();
            assert(i + from@.len() <= vn);
            let mut out: Vec<char> = Vec::new();
            append_range(&mut out, v, 0, i);
            append_all(&mut out, to);
            let mut rest: Vec<char> = Vec::new();
            append_range(&mut rest, v, i + from.len(), vn);
            assert(rest@ =~= v@.skip(i + from@.len()));
            let tail = replace_in(&rest, from, to);
            append_all(&mut out, &tail);
            assert(out@ =~= Seq::<char>::empty() + v@.subrange(0, i as int) + to@ + tail@);
            assert(out@ =~= v@.subrange(0, i as int) + to@ + tail@);
            out
        },
    }
}

/// Replaces, in `v`, occurrences of the pattern by the replacement, both given
/// as string slices.
pub fn replace_str(v: &Vec<char>, from: &str, to: &str) -> (r: Vec<char>)
    ensures
        r@ == replace_seq(v@, from@, to@),
{
    let f = chars_of(from);
    let t = chars_of(to);
    replace_in(v, &f, &t)
}

/// Number of leftmost, non-overlapping occurrences of `p` in `s`.
pub open spec fn count_seq(s: Seq<char>, p: Seq<char>) -> nat
    decreases s.len(),
{
    if p.len() == 0 || p.len() > s.len() {
        0
    } else if s.subrange(0, p.len() as int) == p {
        1 + count_seq(s.skip(p.len() as int), p)
    } else {
        count_seq(s.skip(1), p)
    }
}

/// Counts leftmost, non-overlapping occurrences of `p` in `v`.
pub fn count_in(v: &Vec<char>, p: &Vec<char>) -> (n: u64)
    ensures
        n < u64::MAX ==> n == count_seq(v@, p@),
        n == u64::MAX ==> count_seq(v@, p@) >= u64::MAX,
    decreases v@.len(),
{
    if p.len() == 0 || p.len() > v.len() {
        return 0;
    }
    if is_match_at(v, p, 0) {
        let mut rest: Vec<char> = Vec::new();
        append_range(&mut rest, v, p.len(), v.len());
        assert(rest@ =~= v@.skip(p@.len() as int));
        let n = count_in(&rest, p);
        if n == u64::MAX {
            u64::MAX
        } else {
            n + 1
        }
    } else {
        let mut rest: Vec<char> = Vec::new();
        append_range(&mut rest, v, 1, v.len());
        assert(rest@ =~= v@.skip(1));
        assert(v@.subrange(0, p@.len() as int) != p@);
        count_in(&rest, p)
    }
}

/// `s` begins with `p`.
pub open spec fn starts_with_seq(s: Seq<char>, p: Seq<char>) -> bool {
    p.len() <= s.len() && s.subrange(0, p.len() as int) == p
}

/// Whether `v` begins with `p`.
pub fn starts_with_in(v: &Vec<char>, p: &Vec<char>) -> (b: bool)
    ensures
        b == starts_with_seq(v@, p@),
{
    if p.len() > v.len() {
        return false;
    }
    let b = is_match_at(v, p, 0);
    assert(v@.subrange(0, p@.len() as int) =~= v@.subrange(0int, 0 + p@.len() as int));
    b
}

/// `s` ends with `p`.
pub open spec fn ends_with_seq(s: Seq<char>, p: Seq<char>) -> bool {
    p.len() <= s.len() && s.subrange(s.len() - p.len(), s.len() as int) == p
}

/// Whether `v` ends with `p`.
pub fn ends_with_in(v: &Vec<char>, p: &Vec<char>) -> (b: bool)
    ensures
        b == ends_with_seq(v@, p@),
{
    if p.len() > v.len() {
        return false;
    }
    let b = is_match_at(v, p, v.len() - p.len());
    assert(v@.subrange(v@.len() - p@.len(), v@.len() as int) =~= v@.subrange(
        (v.len() - p.len()) as int,
        (v.len() - p.len()) + p@.len(),
    ));
    b
}

/// The characters `v[lo..hi]`, as a new vector.
pub fn slice_of(v: &Vec<char>, lo: usize, hi: usize) -> (r: Vec<char>)
    requires
        lo <= hi <= v@.len(),
    ensures
        r@ == v@.subrange(lo as int, hi as int),
{
    let mut r: Vec<char> = Vec::new();
    append_range(&mut r, v, lo, hi);
    assert(r@ =~= v@.subrange(lo as int, hi as int));
    r
}

/// Whether the characters of `v` are exactly those of `s`.
pub fn eq_str(v: &Vec<char>, s: &str) -> (b: bool)
    ensures
        b == (v@ == s@),
{
    let n = s.unicode_len();
    if v.len() != n {
        assert(v@ != s@);
        return false;
    }
    for i in 0..n
        invariant
            n == s@.len(),
            n == v@.len(),
            forall|m: int| 0 <= m < i ==> v@[m] == s@[m],
    {
        if v[i] != s.get_char(i) {
            assert(v@ != s@);
            return false;
        }
    }
    assert(v@ =~= s@);
    true
}

/// Whether two string slices hold the same characters.
pub fn str_eq(a: &str, b: &str) -> (r: bool)
    ensures
        r == (a@ == b@),
{
    let av = chars_of(a);
    eq_str(&av, b)
}

/// The ASCII upper-case letters, each mapped to its lower-case form; every
/// other character is left as it is.
pub open spec fn lower_char(c: char) -> char {
    match c {
        'A' => 'a', 'B' => 'b', 'C' => 'c', 'D' => 'd', 'E' => 'e', 'F' => 'f',
        'G' => 'g', 'H' => 'h', 'I' => 'i', 'J' => 'j', 'K' => 'k', 'L' => 'l',
        'M' => 'm', 'N' => 'n', 'O' => 'o', 'P' => 'p', 'Q' => 'q', 'R' => 'r',
        'S' => 's', 'T' => 't', 'U' => 'u', 'V' => 'v', 'W' => 'w', 'X' => 'x',
        'Y' => 'y', 'Z' => 'z', _ => c,
    }
}

/// The ASCII lower-case letters, each mapped to its upper-case form; every
/// other character is left as it is.
pub open spec fn upper_char(c: char) -> char {
    match c {
        'a' => 'A', 'b' => 'B', 'c' => 'C', 'd' => 'D', 'e' => 'E', 'f' => 'F',
        'g' => 'G', 'h' => 'H', 'i' => 'I', 'j' => 'J', 'k' => 'K', 'l' => 'L',
        'm' => 'M', 'n' => 'N', 'o' => 'O', 'p' => 'P', 'q' => 'Q', 'r' => 'R',
        's' => 'S', 't' => 'T', 'u' => 'U', 'v' => 'V', 'w' => 'W', 'x' => 'X',
        'y' => 'Y', 'z' => 'Z', _ => c,
    }
}

/// `c` is an ASCII upper-case letter.
pub open spec fn is_upper(c: char) -> bool {
    'A' <= c && c <= 'Z'
}

/// Exec mirror of `lower_char`.
pub fn lower_char_x(c: char) -> (r: char)
    ensures
        r == lower_char(c),
{
    match c {
        'A' => 'a', 'B' => 'b', 'C' => 'c', 'D' => 'd', 'E' => 'e', 'F' => 'f',
        'G' => 'g', 'H' => 'h', 'I' => 'i', 'J' => 'j', 'K' => 'k', 'L' => 'l',
        'M' => 'm', 'N' => 'n', 'O' => 'o', 'P' => 'p', 'Q' => 'q', 'R' => 'r',
        'S' => 's', 'T' => 't', 'U' => 'u', 'V' => 'v', 'W' => 'w', 'X' => 'x',
        'Y' => 'y', 'Z' => 'z', _ => c,
    }
}

/// Exec mirror of `upper_char`.
pub fn upper_char_x(c: char) -> (r: char)
    ensures
        r == upper_char(c),
{
    match c {
        'a' => 'A', 'b' => 'B', 'c' => 'C', 'd' => 'D', 'e' => 'E', 'f' => 'F',
        'g' => 'G', 'h' => 'H', 'i' => 'I', 'j' => 'J', 'k' => 'K', 'l' => 'L',
        'm' => 'M', 'n' => 'N', 'o' => 'O', 'p' => 'P', 'q' => 'Q', 'r' => 'R',
        's' => 'S', 't' => 'T', 'u' => 'U', 'v' => 'V', 'w' => 'W', 'x' => 'X',
        'y' => 'Y', 'z' => 'Z', _ => c,
    }
}

/// Exec test for `is_upper`.
pub fn is_upper_x(c: char) -> (r: bool)
    ensures
        r == is_upper(c),
{
    'A' <= c && c <= 'Z'
}

/// `s` with every space removed.
pub open spec fn despace(s: Seq<char>) -> Seq<char>
    decreases s.len(),
{
    if s.len() == 0 {
        Seq::empty()
    } else if s[0] == ' ' {
        despace(s.skip(1))
    } else {
        seq![s[0]] + despace(s.skip(1))
    }
}

/// Removes every space from `v`.
pub fn despace_in(v: &Vec<char>) -> (r: Vec<char>)
    ensures
        r@ == despace(v@),
{
    let n = v.len();
    let mut out: Vec<char> = Vec::new();
    proof {
        assert(v@.skip(0) =~= v@);
        assert(out@ + despace(v@) =~= despace(v@));
    }
    for i in 0..n
        invariant
            n == v@.len(),
            despace(v@) == out@ + despace(v@.skip(i as int)),
    {
        proof {
            assert(v@.skip(i as int).len() > 0);
            assert(v@.skip(i as int)[0] == v@[i as int]);
            assert(v@.skip(i as int).skip(1) =~= v@.skip(i + 1));
        }
        if v[i] != ' ' {
            let ghost pre = out@;
            out.push(v[i]);
            assert(out@ + despace(v@.skip(i + 1)) =~= pre + despace(v@.skip(i as int)));
        } else {
            assert(out@ + despace(v@.skip(i + 1)) =~= out@ + despace(v@.skip(i as int)));
        }
    }
    assert(v@.skip(n as int) =~= Seq::<char>::empty());
    assert(out@ =~= out@ + despace(v@.skip(n as int)));
    out
}

/// `s` with every ASCII upper-case letter lowered.
pub open spec fn lower_seq(s: Seq<char>) -> Seq<char> {
    s.map_values(|c: char| lower_char(c))
}

/// Lowers every ASCII upper-case letter of `v`.
pub fn lower_in(v: &Vec<char>) -> (r: Vec<char>)
    ensures
        r@ == lower_seq(v@),
{
    let n = v.len();
    let mut out: Vec<char> = Vec::new();
    for i in 0..n
        invariant
            n == v@.len(),
            out@.len() == i,
            forall|m: int| 0 <= m < i ==> out@[m] == lower_char(v@[m]),
    {
        out.push(lower_char_x(v[i]));
    }
    assert(out@ =~= lower_seq(v@));
    out
}

/// The decimal digit character for `d`.
pub open spec fn digit_char(d: nat) -> char {
    if d == 0 { '0' } else if d == 1 { '1' } else if d == 2 { '2' } else if d == 3 { '3' }
    else if d == 4 { '4' } else if d == 5 { '5' } else if d == 6 { '6' } else if d == 7 { '7' }
    else if d == 8 { '8' } else { '9' }
}

/// Decimal digit string of `n`, most significant first, no sign and no
/// leading zero (but "0" for zero).
pub open spec fn dec_str(n: nat) -> Seq<char>
    decreases n,
{
    if n < 10 {
        seq![digit_char(n)]
    } else {
        dec_str(n / 10) + seq![digit_char(n % 10)]
    }
}

fn digit_char_x(d: usize) -> (r: char)
    requires
        d < 10,
    ensures
        r == digit_char(d as nat),
{
    if d == 0 { '0' } else if d == 1 { '1' } else if d == 2 { '2' } else if d == 3 { '3' }
    else if d == 4 { '4' } else if d == 5 { '5' } else if d == 6 { '6' } else if d == 7 { '7' }
    else if d == 8 { '8' } else { '9' }
}

/// The decimal digits of `n`, as characters.
pub fn usize_to_dec(n: usize) -> (r: Vec<char>)
    ensures
        r@ == dec_str(n as nat),
    decreases n,
{
    if n < 10 {
        let mut r: Vec<char> = Vec::new();
        r.push(digit_char_x(n));
        assert(r@ =~= seq![digit_char(n as nat)]);
        r
    } else {
        let mut r = usize_to_dec(n / 10);
        r.push(digit_char_x(n % 10));
        assert(r@ =~= dec_str((n / 10) as nat) + seq![digit_char((n % 10) as nat)]);
        r
    }
}

/// The pieces of `s` split at every line break; empty pieces are kept, so
/// joining with a line break restores `s` exactly.
pub open spec fn split_nl(s: Seq<char>) -> Seq<Seq<char>>
    decreases s.len(),
    via split_nl_decreases
{
    match find_from(s, "\n"@, 0) {
        Some(j) => seq![s.subrange(0, j)] + split_nl(s.skip(j + 1)),
        None => seq![s],
    }
}

#[via_fn]
proof fn split_nl_decreases(s: Seq<char>) {
    if find_from(s, "\n"@, 0) is Some {
        lemma_find_from_some(s, "\n"@, 0);
        reveal_strlit("\n");
    }
}

/// Splits at every line break, keeping empty pieces.
pub fn split_nl_in(v: &Vec<char>) -> (r: Vec<Vec<char>>)
    ensures
        r.deep_view() == split_nl(v@),
    decreases v@.len(),
{
    let nl = chars_of("\n");
    let n = v.len();
    match find_in(v, &nl, 0) {
        Some(j) => {
            proof {
                lemma_find_from_some(v@, "\n"@, 0);
                reveal_strlit("\n");
            }
            let head = slice_of(v, 0, j);
            let tail = slice_of(v, j + 1, n);
            assert(tail@ =~= v@.skip(j + 1));
            let mut rest = split_nl_in(&tail);
            rest.insert(0, head);
            proof {
                assert(rest.deep_view() =~~= seq![head@] + split_nl(v@.skip(j + 1)));
            }
            rest
        },
        None => {
            let mut r: Vec<Vec<char>> = Vec::new();
            r.push(clone_of(v));
            assert(r.deep_view() =~~= seq![v@]);
            r
        },
    }
}

/// A copy of `v`.
pub fn clone_of(v: &Vec<char>) -> (r: Vec<char>)
    ensures
        r@ == v@,
{
    let n = v.len();
    let r = slice_of(v, 0, n);
    assert(v@.subrange(0, n as int) =~= v@);
    r
}

/// The pieces joined with a line break between each pair.
pub open spec fn join_nl(ls: Seq<Seq<char>>, i: int) -> Seq<char>
    decreases ls.len() - i,
{
    if i < 0 || i >= ls.len() {
        Seq::empty()
    } else if i == ls.len() - 1 {
        ls[i]
    } else {
        ls[i] + "\n"@ + join_nl(ls, i + 1)
    }
}

/// Joins pieces with a line break between each pair.
pub fn join_nl_in(ls: &Vec<Vec<char>>) -> (r: Vec<char>)
    ensures
        r@ == join_nl(ls.deep_view(), 0),
{
    let n = ls.len();
    let mut out: Vec<char> = Vec::new();
    if n == 0 {
        return out;
    }
    for i in 0..n
        invariant
            n == ls@.len(),
            n >= 1,
            i < n ==> out@ + join_nl(ls.deep_view(), i as int) == join_nl(ls.deep_view(), 0),
            i == n ==> out@ == join_nl(ls.deep_view(), 0),
    {
        let ghost pre = out@;
        append_all(&mut out, &ls[i]);
        proof {
            assert(ls.deep_view()[i as int] == ls@[i as int].deep_view());
            assert(ls@[i as int].deep_view() =~= ls@[i as int]@);
        }
        if i + 1 < n {
            append_str(&mut out, "\n");
            assert(out@ + join_nl(ls.deep_view(), i + 1) =~= pre + join_nl(
                ls.deep_view(),
                i as int,
            ));
        } else {
            assert(out@ =~= pre + join_nl(ls.deep_view(), i as int));
        }
    }
    out
}

/// The space-separated words of `s`, in order, without empties.
pub open spec fn split_words(s: Seq<char>) -> Seq<Seq<char>>
    decreases s.len(),
    via split_words_decreases
{
    if s.len() == 0 {
        Seq::empty()
    } else if s[0] == ' ' {
        split_words(s.skip(1))
    } else {
        match find_from(s, " "@, 0) {
            Some(j) => seq![s.subrange(0, j)] + split_words(s.skip(j + 1)),
            None => seq![s],
        }
    }
}

#[via_fn]
proof fn split_words_decreases(s: Seq<char>) {
    if s.len() > 0 && s[0] != ' ' && find_from(s, " "@, 0) is Some {
        lemma_find_from_some(s, " "@, 0);
        reveal_strlit(" ");
        let j = find_from(s, " "@, 0)->Some_0;
        assert(s.subrange(j, j + 1)[0] == s[j]);
        if j == 0 {
            assert(s[0] == ' ');
        }
    }
}

/// Splits `s` into its space-separated words.
pub fn split_words_in(v: &Vec<char>) -> (r: Vec<Vec<char>>)
    ensures
        r.deep_view() == split_words(v@),
    decreases v@.len(),
{
    if v.len() == 0 {
        let r: Vec<Vec<char>> = Vec::new();
        assert(r.deep_view() =~~= Seq::<Seq<char>>::empty());
        return r;
    }
    if v[0] == ' ' {
        let tail = slice_of(v, 1, v.len());
        assert(tail@ =~= v@.skip(1));
        return split_words_in(&tail);
    }
    let sp = chars_of(" ");
    match find_in(v, &sp, 0) {
        Some(j) => {
            proof {
                lemma_find_from_some(v@, " "@, 0);
                reveal_strlit(" ");
                let jj = find_from(v@, " "@, 0)->Some_0;
                assert(v@.subrange(jj, jj + 1)[0] == v@[jj]);
            }
            let head = slice_of(v, 0, j);
            let tail = slice_of(v, j + 1, v.len());
            assert(tail@ =~= v@.skip(j + 1));
            let mut rest = split_words_in(&tail);
            rest.insert(0, head);
            proof {
                assert(rest.deep_view() =~~= seq![head@] + split_words(v@.skip(j + 1)));
            }
            rest
        },
        None => {
            let mut r: Vec<Vec<char>> = Vec::new();
            r.push(clone_of(v));
            assert(r.deep_view() =~~= seq![v@]);
            r
        },
    }
}

/// Whether `p` occurs in `v` at position `i`.
pub fn match_at_in(v: &Vec<char>, p: &Vec<char>, i: usize) -> (b: bool)
    ensures
        b == match_at(v@, p@, i as int),
{
    if i > v.len() || p.len() > v.len() - i {
        assert(!match_at(v@, p@, i as int));
        return false;
    }
    is_match_at(v, p, i)
}

/// A match anywhere is an occurrence.
pub proof fn lemma_match_gives_contains(s: Seq<char>, p: Seq<char>, i: int)
    requires
        match_at(s, p, i),
    ensures
        contains_seq(s, p),
{
    if find_from(s, p, 0) is None {
        lemma_find_from_none(s, p, 0, i);
    }
}

/// An occurrence in the left part is an occurrence in the whole.
pub proof fn lemma_contains_concat_l(a: Seq<char>, b: Seq<char>, p: Seq<char>)
    requires
        contains_seq(a, p),
    ensures
        contains_seq(a + b, p),
{
    lemma_find_from_some(a, p, 0);
    let i = find_from(a, p, 0)->Some_0;
    assert((a + b).subrange(i, i + p.len()) =~= a.subrange(i, i + p.len()));
    lemma_match_gives_contains(a + b, p, i);
}

/// An occurrence in the right part is an occurrence in the whole.
pub proof fn lemma_contains_concat_r(a: Seq<char>, b: Seq<char>, p: Seq<char>)
    requires
        contains_seq(b, p),
    ensures
        contains_seq(a + b, p),
{
    lemma_find_from_some(b, p, 0);
    let i = find_from(b, p, 0)->Some_0;
    assert((a + b).subrange(a.len() + i, a.len() + i + p.len()) =~= b.subrange(i, i + p.len()));
    lemma_match_gives_contains(a + b, p, a.len() + i);
}

} // verus!
