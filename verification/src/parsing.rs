//! Pure text helpers shared with the parsing side: generic-argument and
//! attribute-value extraction for account declarations.

use vstd::prelude::*;
use crate::ir::AccountType;
use crate::idl::{trim_front, trim_seq, trim_in};
use crate::text::{
    append_str, chars_of, contains_in, contains_seq, find_from, find_in, lemma_find_from_some,
    slice_of, string_of,
};

verus! {

/// End of a balanced attribute value: the first closing parenthesis, comma
/// or at-sign outside nested parentheses, or the end of the text.
pub open spec fn spec_val_end(t: Seq<char>, i: int, depth: int) -> int
    decreases t.len() - i,
{
    if i < 0 || i >= t.len() {
        t.len() as int
    } else {
        let c = t[i];
        if c == '(' {
            spec_val_end(t, i + 1, depth + 1)
        } else if c == ')' && depth > 0 {
            spec_val_end(t, i + 1, depth - 1)
        } else if (c == ')' || c == ',' || c == '@') && depth == 0 {
            i
        } else {
            spec_val_end(t, i + 1, depth)
        }
    }
}

/// The end lies between the scan start and the end of the text.
pub proof fn lemma_val_end_bounds(t: Seq<char>, i: int, depth: int)
    requires
        0 <= i <= t.len(),
    ensures
        i <= spec_val_end(t, i, depth) <= t.len(),
    decreases t.len() - i,
{
    if i < t.len() {
        let c = t[i];
        if c == '(' {
            lemma_val_end_bounds(t, i + 1, depth + 1);
        } else if c == ')' && depth > 0 {
            lemma_val_end_bounds(t, i + 1, depth - 1);
        } else if (c == ')' || c == ',' || c == '@') && depth == 0 {
        } else {
            lemma_val_end_bounds(t, i + 1, depth);
        }
    }
}

fn val_end_x(t: &Vec<char>) -> (r: usize)
    ensures
        r as int == spec_val_end(t@, 0, 0),
        r <= t@.len(),
{
    let n = t.len();
    let mut i: usize = 0;
    let mut depth: i128 = 0;
    loop
        invariant
            i <= n,
            n == t@.len(),
            0 <= depth <= i as i128,
            spec_val_end(t@, 0, 0) == spec_val_end(t@, i as int, depth as int),
        decreases n - i,
    {
        if i >= n {
            return n;
        }
        let c = t[i];
        if c == '(' {
            depth = depth + 1;
        } else if c == ')' && depth > 0 {
            depth = depth - 1;
        } else if (c == ')' || c == ',' || c == '@') && depth == 0 {
            proof {
                lemma_val_end_bounds(t@, 0, 0);
            }
            return i;
        }
        i += 1;
    }
}

/// The value bound to a key in an attribute's text: everything after the
/// key's equals sign up to the balanced end, with surrounding whitespace
/// removed; empty when the key or the equals sign is absent.
pub open spec fn spec_extract_value(s: Seq<char>, key: Seq<char>) -> Seq<char> {
    match find_from(s, key, 0) {
        None => Seq::empty(),
        Some(idx) => {
            let rest = s.skip(idx + key.len());
            match find_from(rest, "="@, 0) {
                None => Seq::empty(),
                Some(eq) => {
                    let vs = trim_front(rest.skip(eq + 1));
                    trim_seq(vs.subrange(0, spec_val_end(vs, 0, 0)))
                },
            }
        },
    }
}

/// Extracts the value bound to a key in an attribute's text.
pub fn extract_value(s: &str, key: &str) -> (r: String)
    ensures
        r@ == spec_extract_value(s@, key@),
{
    let sv = chars_of(s);
    let kv = chars_of(key);
    let n = sv.len();
    match find_in(&sv, &kv, 0) {
        None => String::new(),
        Some(idx) => {
            proof {
                lemma_find_from_some(sv@, kv@, 0);
            }
            let rest = slice_of(&sv, idx + kv.len(), n);
            assert(rest@ =~= sv@.skip(idx + kv@.len()));
            let eqp = chars_of("=");
            match find_in(&rest, &eqp, 0) {
                None => String::new(),
                Some(eq) => {
                    proof {
                        lemma_find_from_some(rest@, "="@, 0);
                        reveal_strlit("=");
                    }
                    let rn = rest.len();
                    let after = slice_of(&rest, eq + 1, rn);
                    assert(after@ =~= rest@.skip(eq + 1));
                    let vs = trim_front_pub(&after);
                    let end = val_end_x(&vs);
                    let piece = slice_of(&vs, 0, end);
                    let t = trim_in(&piece);
                    string_of(&t)
                },
            }
        },
    }
}

/// Removes leading whitespace.
pub fn trim_front_pub(v: &Vec<char>) -> (r: Vec<char>)
    ensures
        r@ == trim_front(v@),
{
    let mut lo: usize = 0;
    let n = v.len();
    assert(v@.skip(0) =~= v@);
    while lo < n && is_ws_ch(v[lo])
        invariant
            lo <= n,
            n == v@.len(),
            trim_front(v@) == trim_front(v@.skip(lo as int)),
        decreases n - lo,
    {
        proof {
            assert(v@.skip(lo as int)[0] == v@[lo as int]);
            assert(v@.skip(lo as int).skip(1) =~= v@.skip(lo + 1));
        }
        lo += 1;
    }
    let r = slice_of(v, lo, n);
    assert(r@ =~= v@.skip(lo as int));
    proof {
        if lo < n {
            assert(v@.skip(lo as int)[0] == v@[lo as int]);
        }
    }
    r
}

fn is_ws_ch(c: char) -> (r: bool)
    ensures
        r == crate::idl::is_ws(c),
{
    c == ' ' || c == '\t' || c == '\n' || c == '\r'
}

/// The value bound to a key, or nothing when it is empty.
pub fn extract_value_optional(s: &str, key: &str) -> (r: Option<String>)
    ensures
        match r {
            Some(v) => spec_extract_value(s@, key@).len() > 0 && v@ == spec_extract_value(
                s@,
                key@,
            ),
            None => spec_extract_value(s@, key@).len() == 0,
        },
{
    let v = extract_value(s, key);
    let vv = chars_of(v.as_str());
    if vv.len() == 0 {
        None
    } else {
        Some(v)
    }
}

/// The inner type argument of a generic wrapper: the text between the
/// wrapper's angle brackets, after its last comma when it has several
/// arguments; empty when the wrapper is absent.
pub open spec fn spec_extract_generic(s: Seq<char>, wrapper: Seq<char>) -> Seq<char> {
    let pat = wrapper + "<"@;
    match find_from(s, pat, 0) {
        None => Seq::empty(),
        Some(st) => {
            let rest = s.skip(st + pat.len());
            match spec_rfind_char(rest, '>', rest.len() - 1) {
                None => Seq::empty(),
                Some(end) => {
                    let inner = rest.subrange(0, end);
                    match spec_rfind_char(inner, ',', inner.len() - 1) {
                        Some(cp) => trim_seq(inner.skip(cp + 1)),
                        None => trim_seq(inner),
                    }
                },
            }
        },
    }
}

/// Index of the last occurrence of a character at or before `i`.
pub open spec fn spec_rfind_char(s: Seq<char>, c: char, i: int) -> Option<int>
    decreases i + 1,
{
    if i < 0 || i >= s.len() {
        if i >= s.len() && s.len() > 0 {
            spec_rfind_char(s, c, s.len() - 1)
        } else {
            None
        }
    } else if s[i] == c {
        Some(i)
    } else {
        spec_rfind_char(s, c, i - 1)
    }
}

/// A found character index is in range.
pub proof fn lemma_rfind_char_bounds(s: Seq<char>, c: char, i: int)
    requires
        i < s.len(),
        spec_rfind_char(s, c, i) is Some,
    ensures
        0 <= spec_rfind_char(s, c, i)->Some_0 < s.len(),
    decreases i + 1,
{
    if 0 <= i && s[i] != c {
        lemma_rfind_char_bounds(s, c, i - 1);
    }
}

fn rfind_char_x(v: &Vec<char>, c: char) -> (r: Option<usize>)
    ensures
        match r {
            Some(j) => spec_rfind_char(v@, c, v@.len() - 1) == Some(j as int),
            None => spec_rfind_char(v@, c, v@.len() - 1) is None,
        },
{
    let n = v.len();
    if n == 0 {
        return None;
    }
    let mut i: usize = n - 1;
    loop
        invariant
            0 <= i < n,
            n == v@.len(),
            spec_rfind_char(v@, c, v@.len() - 1) == spec_rfind_char(v@, c, i as int),
        decreases i + 1,
    {
        if v[i] == c {
            return Some(i);
        }
        if i == 0 {
            return None;
        }
        i -= 1;
    }
}

/// Extracts the inner type argument of a generic wrapper.
pub fn extract_generic(ty_str: &str, wrapper: &str) -> (r: String)
    ensures
        r@ == spec_extract_generic(ty_str@, wrapper@),
{
    let sv = chars_of(ty_str);
    let mut pat = chars_of(wrapper);
    append_str(&mut pat, "<");
    let n = sv.len();
    match find_in(&sv, &pat, 0) {
        None => String::new(),
        Some(st) => {
            proof {
                lemma_find_from_some(sv@, wrapper@ + "<"@, 0);
            }
            let rest = slice_of(&sv, st + pat.len(), n);
            assert(rest@ =~= sv@.skip(st + pat@.len()));
            match rfind_char_x(&rest, '>') {
                None => String::new(),
                Some(end) => {
                    proof {
                        lemma_rfind_char_bounds(rest@, '>', rest@.len() - 1);
                    }
                    let inner = slice_of(&rest, 0, end);
                    match rfind_char_x(&inner, ',') {
                        Some(cp) => {
                            proof {
                                lemma_rfind_char_bounds(inner@, ',', inner@.len() - 1);
                            }
                            let inn = inner.len();
                            let seg = slice_of(&inner, cp + 1, inn);
                            assert(seg@ =~= inner@.skip(cp + 1));
                            let t = trim_in(&seg);
                            string_of(&t)
                        },
                        None => {
                            let t = trim_in(&inner);
                            string_of(&t)
                        },
                    }
                },
            }
        },
    }
}

/// The seed expressions of a seed-list attribute: the comma-separated,
/// trimmed, non-empty pieces between the attribute's square brackets.
pub open spec fn spec_extract_seeds(s: Seq<char>) -> Seq<Seq<char>> {
    match find_from(s, "seeds"@, 0) {
        None => Seq::empty(),
        Some(st) => {
            let from_seeds = s.skip(st);
            match find_from(from_seeds, "["@, 0) {
                None => Seq::empty(),
                Some(bs) => {
                    let rest = from_seeds.skip(bs);
                    match find_from(rest, "]"@, 0) {
                        None => Seq::empty(),
                        Some(be) => if be >= 1 {
                            spec_clean_pieces(spec_split_commas(rest.subrange(1, be)), 0)
                        } else {
                            Seq::empty()
                        },
                    }
                },
            }
        },
    }
}

/// The pieces split at every comma, kept empty pieces included.
pub open spec fn spec_split_commas(s: Seq<char>) -> Seq<Seq<char>>
    decreases s.len(),
    via spec_split_commas_decreases
{
    match find_from(s, ","@, 0) {
        Some(j) => seq![s.subrange(0, j)] + spec_split_commas(s.skip(j + 1)),
        None => seq![s],
    }
}

#[via_fn]
proof fn spec_split_commas_decreases(s: Seq<char>) {
    if find_from(s, ","@, 0) is Some {
        lemma_find_from_some(s, ","@, 0);
        reveal_strlit(",");
    }
}

/// The pieces trimmed, with empties dropped, from `i` on.
pub open spec fn spec_clean_pieces(ps: Seq<Seq<char>>, i: int) -> Seq<Seq<char>>
    decreases ps.len() - i,
{
    if i < 0 || i >= ps.len() {
        Seq::empty()
    } else {
        let t = trim_seq(ps[i]);
        (if t.len() > 0 {
            seq![t]
        } else {
            Seq::empty()
        }) + spec_clean_pieces(ps, i + 1)
    }
}

fn split_commas_x(v: &Vec<char>) -> (r: Vec<Vec<char>>)
    ensures
        r.deep_view() == spec_split_commas(v@),
    decreases v@.len(),
{
    let comma = chars_of(",");
    let n = v.len();
    match find_in(v, &comma, 0) {
        Some(j) => {
            proof {
                lemma_find_from_some(v@, ","@, 0);
                reveal_strlit(",");
            }
            let head = slice_of(v, 0, j);
            let tail = slice_of(v, j + 1, n);
            assert(tail@ =~= v@.skip(j + 1));
            let mut rest = split_commas_x(&tail);
            rest.insert(0, head);
            proof {
                assert(rest.deep_view() =~~= seq![head@] + spec_split_commas(v@.skip(j + 1)));
            }
            rest
        },
        None => {
            let mut r: Vec<Vec<char>> = Vec::new();
            r.push(crate::text::clone_of(v));
            assert(r.deep_view() =~~= seq![v@]);
            r
        },
    }
}

/// Extracts the seed expressions of a seed-list attribute.
pub fn extract_seeds(s: &str) -> (r: Vec<String>)
    ensures
        r.deep_view() == spec_extract_seeds(s@),
{
    let sv = chars_of(s);
    let seedsp = chars_of("seeds");
    let n = sv.len();
    match find_in(&sv, &seedsp, 0) {
        None => {
            let r: Vec<String> = Vec::new();
            assert(r.deep_view() =~~= Seq::<Seq<char>>::empty());
            r
        },
        Some(st) => {
            proof {
                lemma_find_from_some(sv@, "seeds"@, 0);
            }
            let from_seeds = slice_of(&sv, st, n);
            assert(from_seeds@ =~= sv@.skip(st as int));
            let ob = chars_of("[");
            match find_in(&from_seeds, &ob, 0) {
                None => {
                    let r: Vec<String> = Vec::new();
                    assert(r.deep_view() =~~= Seq::<Seq<char>>::empty());
                    r
                },
                Some(bs) => {
                    proof {
                        lemma_find_from_some(from_seeds@, "["@, 0);
                        reveal_strlit("[");
                    }
                    let fn2 = from_seeds.len();
                    let rest = slice_of(&from_seeds, bs, fn2);
                    assert(rest@ =~= from_seeds@.skip(bs as int));
                    let cb = chars_of("]");
                    match find_in(&rest, &cb, 0) {
                        None => {
                            let r: Vec<String> = Vec::new();
                            assert(r.deep_view() =~~= Seq::<Seq<char>>::empty());
                            r
                        },
                        Some(be) => {
                            proof {
                                lemma_find_from_some(rest@, "]"@, 0);
                                reveal_strlit("]");
                            }
                            if be >= 1 {
                                let inner = slice_of(&rest, 1, be);
                                let pieces = split_commas_x(&inner);
                                let np = pieces.len();
                                let mut out: Vec<String> = Vec::new();
                                let ghost pieces_g = spec_split_commas(inner@);
                                assert(out.deep_view() + spec_clean_pieces(pieces_g, 0)
                                    =~~= spec_clean_pieces(pieces_g, 0));
                                for i in 0..np
                                    invariant
                                        np == pieces@.len(),
                                        pieces.deep_view() == pieces_g,
                                        spec_clean_pieces(pieces_g, 0) == out.deep_view()
                                            + spec_clean_pieces(pieces_g, i as int),
                                {
                                    proof {
                                        assert(pieces.deep_view()[i as int] == pieces@[
                                            i as int].deep_view());
                                        assert(pieces@[i as int].deep_view() =~= pieces@[
                                            i as int]@);
                                    }
                                    let ghost pre = out.deep_view();
                                    let t = trim_in(&pieces[i]);
                                    if t.len() > 0 {
                                        out.push(string_of(&t));
                                        proof {
                                            assert(out.deep_view() =~~= pre + seq![t@]);
                                        }
                                    }
                                    assert(out.deep_view() + spec_clean_pieces(pieces_g, i + 1)
                                        =~~= pre + spec_clean_pieces(pieces_g, i as int));
                                }
                                assert(spec_clean_pieces(pieces_g, np as int) =~~= Seq::<
                                    Seq<char>,
                                >::empty());
                                assert(out.deep_view() + spec_clean_pieces(pieces_g, np as int)
                                    =~~= out.deep_view());
                                out
                            } else {
                                let r: Vec<String> = Vec::new();
                                assert(r.deep_view() =~~= Seq::<Seq<char>>::empty());
                                r
                            }
                        },
                    }
                },
            }
        },
    }
}

/// A custom-constraint attribute split into its expression and its optional
/// error: the value of the constraint key, parted at its first at-sign.
pub open spec fn spec_extract_constraint(s: Seq<char>) -> (Seq<char>, Option<Seq<char>>) {
    let expr = spec_extract_value(s, "constraint"@);
    match find_from(expr, "@"@, 0) {
        Some(a) => (
            trim_seq(expr.subrange(0, a)),
            Some(trim_seq(spec_second_segment(expr, a))),
        ),
        None => (trim_seq(expr), None),
    }
}

/// The text between the first at-sign and the next one, or to the end.
pub open spec fn spec_second_segment(s: Seq<char>, a: int) -> Seq<char> {
    let rest = s.skip(a + 1);
    match find_from(rest, "@"@, 0) {
        Some(b) => rest.subrange(0, b),
        None => rest,
    }
}

/// Extracts a custom-constraint expression and its optional error.
pub fn extract_constraint(s: &str) -> (r: (String, Option<String>))
    ensures
        r.0@ == spec_extract_constraint(s@).0,
        (match r.1 {
            Some(e) => spec_extract_constraint(s@).1 is Some && e@ == spec_extract_constraint(
                s@,
            ).1->Some_0,
            None => spec_extract_constraint(s@).1 is None,
        }),
{
    let expr = extract_value(s, "constraint");
    let ev = chars_of(expr.as_str());
    split_at_sign(&ev)
}

fn split_at_sign(ev: &Vec<char>) -> (r: (String, Option<String>))
    ensures
        r.0@ == (match find_from(ev@, "@"@, 0) {
            Some(a) => trim_seq(ev@.subrange(0, a)),
            None => trim_seq(ev@),
        }),
        (match r.1 {
            Some(e) => find_from(ev@, "@"@, 0) is Some && e@ == trim_seq(
                spec_second_segment(ev@, find_from(ev@, "@"@, 0)->Some_0),
            ),
            None => find_from(ev@, "@"@, 0) is None,
        }),
{
    let at = chars_of("@");
    let n = ev.len();
    match find_in(ev, &at, 0) {
        Some(a) => {
            proof {
                lemma_find_from_some(ev@, "@"@, 0);
                reveal_strlit("@");
            }
            let head = slice_of(ev, 0, a);
            let th = trim_in(&head);
            let rest = slice_of(ev, a + 1, n);
            assert(rest@ =~= ev@.skip(a + 1));
            let seg = match find_in(&rest, &at, 0) {
                Some(b) => {
                    proof {
                        lemma_find_from_some(rest@, "@"@, 0);
                    }
                    slice_of(&rest, 0, b)
                },
                None => crate::text::clone_of(&rest),
            };
            let ts = trim_in(&seg);
            (string_of(&th), Some(string_of(&ts)))
        },
        None => {
            let t = trim_in(ev);
            (string_of(&t), None)
        },
    }
}

/// A field-equality attribute split into its field and its optional error:
/// the value of the key, parted at its first at-sign.
pub open spec fn spec_extract_has_one(s: Seq<char>) -> (Seq<char>, Option<Seq<char>>) {
    let val = spec_extract_value(s, "has_one"@);
    match find_from(val, "@"@, 0) {
        Some(a) => (trim_seq(val.subrange(0, a)), Some(trim_seq(spec_second_segment(val, a)))),
        None => (val, None),
    }
}

/// Extracts a field-equality field name and its optional error.
pub fn extract_has_one(s: &str) -> (r: (String, Option<String>))
    ensures
        r.0@ == spec_extract_has_one(s@).0,
        (match r.1 {
            Some(e) => spec_extract_has_one(s@).1 is Some && e@ == spec_extract_has_one(
                s@,
            ).1->Some_0,
            None => spec_extract_has_one(s@).1 is None,
        }),
{
    let val = extract_value(s, "has_one");
    let vv = chars_of(val.as_str());
    let at = chars_of("@");
    match find_in(&vv, &at, 0) {
        Some(_) => {
            let r = split_at_sign(&vv);
            proof {
                crate::idl::lemma_trim_len(vv@);
            }
            r
        },
        None => {
            proof {
                reveal_strlit("@");
            }
            (val, None)
        },
    }
}

/// The account kind read from a bare type name: owned accounts, token
/// mints and token accounts by name, anything else an owned account of
/// that name.
pub open spec fn spec_account_type_str(s: Seq<char>) -> (bool, Seq<char>) {
    if contains_seq(s, "Account"@) {
        (true, spec_extract_generic(s, "Account"@))
    } else if contains_seq(s, "Mint"@) {
        (false, "Mint"@)
    } else {
        (true, s)
    }
}

/// Reads the account kind from a bare type name.
pub fn parse_account_type_str(s: &str) -> (r: AccountType)
    ensures
        contains_seq(s@, "Account"@) ==> r is Account && r->Account_inner@ == spec_extract_generic(
            s@,
            "Account"@,
        ),
        !contains_seq(s@, "Account"@) && contains_seq(s@, "Mint"@) ==> r is Mint,
        !contains_seq(s@, "Account"@) && !contains_seq(s@, "Mint"@) ==> r is Account
            && r->Account_inner@ == s@,
{
    let sv = chars_of(s);
    let accp = chars_of("Account");
    let mintp = chars_of("Mint");
    if contains_in(&sv, &accp) {
        let inner = extract_generic(s, "Account");
        AccountType::Account { inner }
    } else if contains_in(&sv, &mintp) {
        AccountType::Mint
    } else {
        AccountType::Account { inner: String::from_str(s) }
    }
}

} // verus!
