//! Code-text helpers shared with the emitting side: constant-name casing,
//! helper-signature and helper-body cleanup, diagnostic-call lowering, and
//! instruction-argument parsing lines.

use vstd::prelude::*;
use crate::text::{
    append_all, append_str, chars_of, dec_str, despace, despace_in, eq_str, is_upper, is_upper_x,
    lower_in, lower_seq, match_at, replace_seq, replace_str, slice_of, starts_with_in,
    starts_with_seq, string_of, upper_char, upper_char_x, usize_to_dec,
};
use crate::idl::{all_digits, digits_val, is_ws, parse_usize_in};

verus! {

/// Characters of `s` from `i` on, rewritten to a constant name: every letter
/// raised, with an underscore before an upper-case letter except at the
/// start.
pub open spec fn screaming_from(s: Seq<char>, i: int) -> Seq<char>
    decreases s.len() - i,
{
    if i < 0 || i >= s.len() {
        Seq::empty()
    } else {
        let c = s[i];
        let piece: Seq<char> = if is_upper(c) && i > 0 {
            seq!['_', upper_char(c)]
        } else {
            seq![upper_char(c)]
        };
        piece + screaming_from(s, i + 1)
    }
}

/// `s` as a constant name.
pub open spec fn screaming_seq(s: Seq<char>) -> Seq<char> {
    screaming_from(s, 0)
}

/// Converts a name to constant-name case.
pub fn to_screaming_snake_str(s: &str) -> (r: String)
    ensures
        r@ == screaming_seq(s@),
{
    let v = chars_of(s);
    let n = v.len();
    let mut out: Vec<char> = Vec::new();
    assert(out@ + screaming_from(v@, 0) =~= screaming_from(v@, 0));
    for i in 0..n
        invariant
            n == v@.len(),
            screaming_seq(v@) == out@ + screaming_from(v@, i as int),
    {
        let ghost pre = out@;
        if is_upper_x(v[i]) && i > 0 {
            out.push('_');
            out.push(upper_char_x(v[i]));
        } else {
            out.push(upper_char_x(v[i]));
        }
        assert(out@ + screaming_from(v@, i + 1) =~= pre + screaming_from(v@, i as int));
    }
    assert(screaming_from(v@, n as int) =~= Seq::<char>::empty());
    assert(out@ + screaming_from(v@, n as int) =~= out@);
    string_of(&out)
}

/// Converts a name to constant-name case.
pub fn to_screaming_snake(s: &str) -> (r: String)
    ensures
        r@ == screaming_seq(s@),
{
    to_screaming_snake_str(s)
}

/// A lifted helper signature, with its result type widened to carry the
/// runtime error type and reference spacing normalized.
pub open spec fn spec_clean_helper_signature(s: Seq<char>) -> Seq<char> {
    let s1 = replace_seq(s, "Result < () >"@, "Result<(), ProgramError>"@);
    let s2 = replace_seq(s1, "Result<()>"@, "Result<(), ProgramError>"@);
    let s3 = replace_seq(s2, "Result < u64 >"@, "Result<u64, ProgramError>"@);
    let s4 = replace_seq(s3, "Result<u64>"@, "Result<u64, ProgramError>"@);
    let s5 = replace_seq(s4, "Result < u128 >"@, "Result<u128, ProgramError>"@);
    let s6 = replace_seq(s5, "Result<u128>"@, "Result<u128, ProgramError>"@);
    let s7 = replace_seq(s6, "& StablePool"@, "&StablePool"@);
    replace_seq(s7, "& mut "@, "&mut "@)
}

/// Cleans up a lifted helper signature.
pub fn clean_helper_signature(sig: &str) -> (r: String)
    ensures
        r@ == spec_clean_helper_signature(sig@),
{
    let mut cur = chars_of(sig);
    cur = replace_str(&cur, "Result < () >", "Result<(), ProgramError>");
    cur = replace_str(&cur, "Result<()>", "Result<(), ProgramError>");
    cur = replace_str(&cur, "Result < u64 >", "Result<u64, ProgramError>");
    cur = replace_str(&cur, "Result<u64>", "Result<u64, ProgramError>");
    cur = replace_str(&cur, "Result < u128 >", "Result<u128, ProgramError>");
    cur = replace_str(&cur, "Result<u128>", "Result<u128, ProgramError>");
    cur = replace_str(&cur, "& StablePool", "&StablePool");
    cur = replace_str(&cur, "& mut ", "&mut ");
    string_of(&cur)
}

/// A lifted helper body with source-side error names, clock calls, and path
/// spacing rewritten to the target convention, and `std` paths moved to
/// `core`.
pub open spec fn spec_clean_helper_body(s: Seq<char>) -> Seq<char> {
    let s1 = replace_seq(s, "StableSwapError :: "@, "Error::"@);
    let s2 = replace_seq(s1, "StableSwapError::"@, "Error::"@);
    let s3 = replace_seq(s2, "Clock :: get () ?"@, "Clock::get()?"@);
    let s4 = replace_seq(s3, "Clock :: get ()"@, "Clock::get()"@);
    let s5 = replace_seq(s4, " :: "@, "::"@);
    let s6 = replace_seq(s5, " . "@, "."@);
    let s7 = replace_seq(s6, "std::cmp::"@, "core::cmp::"@);
    let s8 = replace_seq(s7, "std::mem::"@, "core::mem::"@);
    replace_seq(s8, "std::ptr::"@, "core::ptr::"@)
}

/// Cleans up a lifted helper body.
pub fn clean_helper_body(body: &str) -> (r: String)
    ensures
        r@ == spec_clean_helper_body(body@),
{
    let mut cur = chars_of(body);
    cur = replace_str(&cur, "StableSwapError :: ", "Error::");
    cur = replace_str(&cur, "StableSwapError::", "Error::");
    cur = replace_str(&cur, "Clock :: get () ?", "Clock::get()?");
    cur = replace_str(&cur, "Clock :: get ()", "Clock::get()");
    cur = replace_str(&cur, " :: ", "::");
    cur = replace_str(&cur, " . ", ".");
    cur = replace_str(&cur, "std::cmp::", "core::cmp::");
    cur = replace_str(&cur, "std::mem::", "core::mem::");
    cur = replace_str(&cur, "std::ptr::", "core::ptr::");
    string_of(&cur)
}

/// Reserved relaxation of checked arithmetic in lifted helpers; the body
/// passes through unchanged.
pub fn apply_unsafe_math_to_helpers(body: &str) -> (r: String)
    ensures
        r@ == body@,
{
    let v = chars_of(body);
    string_of(&v)
}

/// There is a comma in `s` at or after `i` that stands outside every string
/// literal, tracking escape sequences.
pub open spec fn comma_outside_from(s: Seq<char>, i: int, in_string: bool, escape: bool) -> bool
    decreases s.len() - i,
{
    if i < 0 || i >= s.len() {
        false
    } else {
        let c = s[i];
        if escape {
            comma_outside_from(s, i + 1, in_string, false)
        } else if c == '\\' {
            comma_outside_from(s, i + 1, in_string, true)
        } else if c == '"' {
            comma_outside_from(s, i + 1, !in_string, false)
        } else if c == ',' && !in_string {
            true
        } else {
            comma_outside_from(s, i + 1, in_string, false)
        }
    }
}

/// Whether `s` holds a comma outside every string literal: the mark of a
/// diagnostic call with structured arguments.
pub fn has_comma_outside_strings(s: &str) -> (r: bool)
    ensures
        r == comma_outside_from(s@, 0, false, false),
{
    let v = chars_of(s);
    let n = v.len();
    let mut in_string = false;
    let mut escape = false;
    for i in 0..n
        invariant
            n == v@.len(),
            v@ == s@,
            comma_outside_from(v@, 0, false, false) == comma_outside_from(
                v@,
                i as int,
                in_string,
                escape,
            ),
    {
        let c = v[i];
        if escape {
            escape = false;
        } else if c == '\\' {
            escape = true;
        } else if c == '"' {
            in_string = !in_string;
        } else if c == ',' && !in_string {
            return true;
        }
    }
    false
}

// ------------------------------------------------------------------
// Instruction-argument parsing lines
// ------------------------------------------------------------------

/// Byte size of one instruction argument, by its normalized type name; zero
/// for a type that cannot be parsed here.
pub open spec fn spec_arg_size(n: Seq<char>) -> nat {
    if n == "u8"@ || n == "i8"@ {
        1
    } else if n == "u16"@ || n == "i16"@ {
        2
    } else if n == "u32"@ || n == "i32"@ {
        4
    } else if n == "u64"@ || n == "i64"@ {
        8
    } else if n == "u128"@ || n == "i128"@ {
        16
    } else if n == "bool"@ {
        1
    } else if n == "pubkey"@ {
        32
    } else if starts_with_seq(n, "[u8;"@) && n.len() >= 5 && n[n.len() - 1] == ']'
        && spec_bracket_count(n) is Some {
        spec_bracket_count(n)->Some_0
    } else {
        0
    }
}

/// The element count parsed out of a normalized `[u8;N]` type name.
pub open spec fn spec_bracket_count(n: Seq<char>) -> Option<nat> {
    let inner = n.subrange(4, n.len() - 1);
    if inner.len() > 0 && all_digits(inner) && digits_val(inner) <= usize::MAX {
        Some(digits_val(inner))
    } else {
        None
    }
}

/// A little-endian multi-byte parse line.
pub open spec fn spec_le_parse_line(
    tyname: Seq<char>,
    name: Seq<char>,
    off: nat,
    size: nat,
) -> Seq<char> {
    "let "@ + name + " = "@ + tyname + "::from_le_bytes(data.get("@ + dec_str(off) + ".."@
        + dec_str(off + size) + ").ok_or(ProgramError::InvalidInstructionData)?.try_into().unwrap());"@
}

/// A byte-array parse line.
pub open spec fn spec_array_parse_line(name: Seq<char>, n: nat, off: nat) -> Seq<char> {
    "let "@ + name + ": [u8; "@ + dec_str(n) + "] = data.get("@ + dec_str(off) + ".."@ + dec_str(
        off + n,
    ) + ").ok_or(ProgramError::InvalidInstructionData)?.try_into().unwrap();"@
}

/// The parse line for one instruction argument at a byte offset, by its
/// normalized type name.
pub open spec fn spec_arg_parse_line(
    n: Seq<char>,
    ty: Seq<char>,
    name: Seq<char>,
    off: nat,
) -> Seq<char> {
    if n == "u8"@ {
        "let "@ + name + " = data.get("@ + dec_str(off)
            + ").copied().ok_or(ProgramError::InvalidInstructionData)?;"@
    } else if n == "i8"@ {
        "let "@ + name + " = data.get("@ + dec_str(off)
            + ").map(|&b| b as i8).ok_or(ProgramError::InvalidInstructionData)?;"@
    } else if n == "u16"@ {
        spec_le_parse_line("u16"@, name, off, 2)
    } else if n == "i16"@ {
        spec_le_parse_line("i16"@, name, off, 2)
    } else if n == "u32"@ {
        spec_le_parse_line("u32"@, name, off, 4)
    } else if n == "i32"@ {
        spec_le_parse_line("i32"@, name, off, 4)
    } else if n == "u64"@ {
        spec_le_parse_line("u64"@, name, off, 8)
    } else if n == "i64"@ {
        spec_le_parse_line("i64"@, name, off, 8)
    } else if n == "u128"@ {
        spec_le_parse_line("u128"@, name, off, 16)
    } else if n == "i128"@ {
        spec_le_parse_line("i128"@, name, off, 16)
    } else if n == "bool"@ {
        "let "@ + name + " = data.get("@ + dec_str(off)
            + ").copied().ok_or(ProgramError::InvalidInstructionData)? != 0;"@
    } else if n == "pubkey"@ {
        "let "@ + name + ": &[u8; 32] = data.get("@ + dec_str(off) + ".."@ + dec_str(off + 32)
            + ").ok_or(ProgramError::InvalidInstructionData)?.try_into().unwrap();"@
    } else if starts_with_seq(n, "[u8;"@) && n.len() >= 5 && n[n.len() - 1] == ']'
        && spec_bracket_count(n) is Some {
        spec_array_parse_line(name, spec_bracket_count(n)->Some_0, off)
    } else {
        "// TODO: Parse "@ + name + " of type "@ + ty + " at offset "@ + dec_str(off)
    }
}

fn le_parse_line(tyname: &str, name: &str, off: usize, size: usize) -> (r: Vec<char>)
    requires
        off + size <= usize::MAX,
    ensures
        r@ == spec_le_parse_line(tyname@, name@, off as nat, size as nat),
{
    let mut out: Vec<char> = Vec::new();
    append_str(&mut out, "let ");
    append_str(&mut out, name);
    append_str(&mut out, " = ");
    append_str(&mut out, tyname);
    append_str(&mut out, "::from_le_bytes(data.get(");
    let d1 = usize_to_dec(off);
    append_all(&mut out, &d1);
    append_str(&mut out, "..");
    let d2 = usize_to_dec(off + size);
    append_all(&mut out, &d2);
    append_str(&mut out, ").ok_or(ProgramError::InvalidInstructionData)?.try_into().unwrap());");
    out
}

/// The byte size and parse line for one instruction argument at a byte
/// offset.  Spaces and letter case in the type name are ignored; an unknown
/// type contributes no bytes and an inert marker line.
pub fn get_arg_parse_code(ty: &str, offset: usize, name: &str) -> (r: (usize, String))
    requires
        offset + spec_arg_size(lower_seq(despace(ty@))) <= usize::MAX,
    ensures
        r.0 as nat == spec_arg_size(lower_seq(despace(ty@))),
        r.1@ == spec_arg_parse_line(lower_seq(despace(ty@)), ty@, name@, offset as nat),
{
    let tv = chars_of(ty);
    let dv = despace_in(&tv);
    let n = lower_in(&dv);
    proof {
        reveal_strlit("u8");
        reveal_strlit("i8");
        reveal_strlit("u16");
        reveal_strlit("i16");
        reveal_strlit("u32");
        reveal_strlit("i32");
        reveal_strlit("u64");
        reveal_strlit("i64");
        reveal_strlit("u128");
        reveal_strlit("i128");
        reveal_strlit("bool");
        reveal_strlit("pubkey");
        reveal_strlit("[u8;");
    }
    if eq_str(&n, "u8") {
        let mut out: Vec<char> = Vec::new();
        append_str(&mut out, "let ");
        append_str(&mut out, name);
        append_str(&mut out, " = data.get(");
        let d = usize_to_dec(offset);
        append_all(&mut out, &d);
        append_str(&mut out, ").copied().ok_or(ProgramError::InvalidInstructionData)?;");
        (1, string_of(&out))
    } else if eq_str(&n, "i8") {
        let mut out: Vec<char> = Vec::new();
        append_str(&mut out, "let ");
        append_str(&mut out, name);
        append_str(&mut out, " = data.get(");
        let d = usize_to_dec(offset);
        append_all(&mut out, &d);
        append_str(&mut out, ").map(|&b| b as i8).ok_or(ProgramError::InvalidInstructionData)?;");
        (1, string_of(&out))
    } else if eq_str(&n, "u16") {
        (2, string_of(&le_parse_line("u16", name, offset, 2)))
    } else if eq_str(&n, "i16") {
        (2, string_of(&le_parse_line("i16", name, offset, 2)))
    } else if eq_str(&n, "u32") {
        (4, string_of(&le_parse_line("u32", name, offset, 4)))
    } else if eq_str(&n, "i32") {
        (4, string_of(&le_parse_line("i32", name, offset, 4)))
    } else if eq_str(&n, "u64") {
        (8, string_of(&le_parse_line("u64", name, offset, 8)))
    } else if eq_str(&n, "i64") {
        (8, string_of(&le_parse_line("i64", name, offset, 8)))
    } else if eq_str(&n, "u128") {
        (16, string_of(&le_parse_line("u128", name, offset, 16)))
    } else if eq_str(&n, "i128") {
        (16, string_of(&le_parse_line("i128", name, offset, 16)))
    } else if eq_str(&n, "bool") {
        let mut out: Vec<char> = Vec::new();
        append_str(&mut out, "let ");
        append_str(&mut out, name);
        append_str(&mut out, " = data.get(");
        let d = usize_to_dec(offset);
        append_all(&mut out, &d);
        append_str(&mut out, ").copied().ok_or(ProgramError::InvalidInstructionData)? != 0;");
        (1, string_of(&out))
    } else if eq_str(&n, "pubkey") {
        let mut out: Vec<char> = Vec::new();
        append_str(&mut out, "let ");
        append_str(&mut out, name);
        append_str(&mut out, ": &[u8; 32] = data.get(");
        let d = usize_to_dec(offset);
        append_all(&mut out, &d);
        append_str(&mut out, "..");
        let d2 = usize_to_dec(offset + 32);
        append_all(&mut out, &d2);
        append_str(&mut out, ").ok_or(ProgramError::InvalidInstructionData)?.try_into().unwrap();");
        (32, string_of(&out))
    } else {
        let brp = chars_of("[u8;");
        let mut handled = false;
        let mut count: usize = 0;
        if starts_with_in(&n, &brp) && n.len() >= 5 && n[n.len() - 1] == ']' {
            let inner = slice_of(&n, 4, n.len() - 1);
            match parse_usize_in(&inner) {
                Some(k) => {
                    handled = true;
                    count = k;
                },
                None => {},
            }
        }
        if handled {
            proof {
                assert(spec_bracket_count(n@) is Some);
                assert(spec_bracket_count(n@)->Some_0 == count as nat);
            }
            let mut out: Vec<char> = Vec::new();
            append_str(&mut out, "let ");
            append_str(&mut out, name);
            append_str(&mut out, ": [u8; ");
            let dn = usize_to_dec(count);
            append_all(&mut out, &dn);
            append_str(&mut out, "] = data.get(");
            let d = usize_to_dec(offset);
            append_all(&mut out, &d);
            append_str(&mut out, "..");
            let d2 = usize_to_dec(offset + count);
            append_all(&mut out, &d2);
            append_str(
                &mut out,
                ").ok_or(ProgramError::InvalidInstructionData)?.try_into().unwrap();",
            );
            (count, string_of(&out))
        } else {
            let mut out: Vec<char> = Vec::new();
            append_str(&mut out, "// TODO: Parse ");
            append_str(&mut out, name);
            append_str(&mut out, " of type ");
            append_str(&mut out, ty);
            append_str(&mut out, " at offset ");
            let d = usize_to_dec(offset);
            append_all(&mut out, &d);
            (0, string_of(&out))
        }
    }
}

/// Collects one diagnostic call's argument text: line breaks become single
/// spaces, whitespace after a space is dropped, and the closing parenthesis
/// is not kept.  Returns the text with the index after the call.
pub open spec fn spec_msg_collect(t: Seq<char>, i: int, depth: int, acc: Seq<char>) -> (
    Seq<char>,
    int,
)
    decreases t.len() - i,
{
    if i < 0 || i >= t.len() || depth <= 0 {
        (acc, i)
    } else {
        let c = t[i];
        if c == '(' {
            spec_msg_collect(t, i + 1, depth + 1, acc.push(c))
        } else if c == ')' {
            if depth == 1 {
                (acc, i + 1)
            } else {
                spec_msg_collect(t, i + 1, depth - 1, acc.push(c))
            }
        } else if c == '\n' {
            spec_msg_collect(t, i + 1, depth, if acc.len() > 0 && acc.last() == ' ' {
                acc
            } else {
                acc.push(' ')
            })
        } else if is_ws(c) && acc.len() > 0 && acc.last() == ' ' {
            spec_msg_collect(t, i + 1, depth, acc)
        } else {
            spec_msg_collect(t, i + 1, depth, acc.push(c))
        }
    }
}

/// The collection never walks backwards nor past the end.
pub proof fn lemma_msg_collect_bound(t: Seq<char>, i: int, depth: int, acc: Seq<char>)
    ensures
        spec_msg_collect(t, i, depth, acc).1 >= i,
        i <= t.len() ==> spec_msg_collect(t, i, depth, acc).1 <= t.len(),
    decreases t.len() - i,
{
    if 0 <= i < t.len() && depth > 0 {
        let c = t[i];
        if c == '(' {
            lemma_msg_collect_bound(t, i + 1, depth + 1, acc.push(c));
        } else if c == ')' {
            if depth != 1 {
                lemma_msg_collect_bound(t, i + 1, depth - 1, acc.push(c));
            }
        } else if c == '\n' {
            lemma_msg_collect_bound(t, i + 1, depth, if acc.len() > 0 && acc.last() == ' ' {
                acc
            } else {
                acc.push(' ')
            });
        } else if is_ws(c) && acc.len() > 0 && acc.last() == ' ' {
            lemma_msg_collect_bound(t, i + 1, depth, acc);
        } else {
            lemma_msg_collect_bound(t, i + 1, depth, acc.push(c));
        }
    }
}

/// Diagnostic calls from `i` on, joined onto one line each; a call whose
/// arguments hold a comma outside string literals carries structured
/// arguments the target diagnostic facility cannot render, so it is
/// disabled into a comment.
pub open spec fn spec_fix_msg_from(s: Seq<char>, i: int) -> Seq<char>
    decreases s.len() - i,
    via spec_fix_msg_from_decreases
{
    if i < 0 || i >= s.len() {
        Seq::empty()
    } else if match_at(s, "msg!("@, i) {
        let r = spec_msg_collect(s, i + 5, 1, Seq::empty());
        (if comma_outside_from(r.0, 0, false, false) {
            "// msg!("@
        } else {
            "msg!("@
        }) + r.0 + ")"@ + spec_fix_msg_from(s, r.1)
    } else if match_at(s, "msg ! ("@, i) {
        let r = spec_msg_collect(s, i + 7, 1, Seq::empty());
        (if comma_outside_from(r.0, 0, false, false) {
            "// msg!("@
        } else {
            "msg!("@
        }) + r.0 + ")"@ + spec_fix_msg_from(s, r.1)
    } else {
        seq![s[i]] + spec_fix_msg_from(s, i + 1)
    }
}

#[via_fn]
proof fn spec_fix_msg_from_decreases(s: Seq<char>, i: int) {
    reveal_strlit("msg!(");
    reveal_strlit("msg ! (");
    lemma_msg_collect_bound(s, i + 5, 1, Seq::empty());
    lemma_msg_collect_bound(s, i + 7, 1, Seq::empty());
}

fn msg_collect_x(t: &Vec<char>, start: usize) -> (r: (Vec<char>, usize))
    requires
        start <= t@.len(),
    ensures
        r.0@ == spec_msg_collect(t@, start as int, 1, Seq::empty()).0,
        r.1 == spec_msg_collect(t@, start as int, 1, Seq::empty()).1,
        r.1 <= t@.len(),
{
    let n = t.len();
    let mut i = start;
    let mut depth: i128 = 1;
    let mut acc: Vec<char> = Vec::new();
    loop
        invariant
            start <= i <= n,
            n == t@.len(),
            1 <= depth <= 1 + (i as i128),
            spec_msg_collect(t@, start as int, 1, Seq::empty()) == spec_msg_collect(
                t@,
                i as int,
                depth as int,
                acc@,
            ),
        decreases n - i,
    {
        if i >= n {
            return (acc, i);
        }
        let c = t[i];
        if c == '(' {
            depth = depth + 1;
            acc.push(c);
        } else if c == ')' {
            if depth == 1 {
                return (acc, i + 1);
            }
            depth = depth - 1;
            acc.push(c);
        } else if c == '\n' {
            if !(acc.len() > 0 && acc[acc.len() - 1] == ' ') {
                acc.push(' ');
            }
        } else if (c == ' ' || c == '\t' || c == '\r') && acc.len() > 0 && acc[acc.len() - 1]
            == ' ' {
            proof {
                assert(acc@.last() == acc@[acc@.len() - 1]);
            }
        } else {
            acc.push(c);
        }
        i += 1;
    }
}

/// Joins diagnostic calls onto one line each and disables those whose
/// arguments the target diagnostic facility cannot render.
pub fn fix_msg_macros(body: &str) -> (r: String)
    ensures
        r@ == spec_fix_msg_from(body@, 0),
{
    let v = chars_of(body);
    let n = v.len();
    let compact = chars_of("msg!(");
    let spaced = chars_of("msg ! (");
    let mut out: Vec<char> = Vec::new();
    let mut i: usize = 0;
    while i < n
        invariant
            i <= n,
            n == v@.len(),
            v@ == body@,
            compact@ == "msg!("@,
            spaced@ == "msg ! ("@,
            spec_fix_msg_from(v@, 0) == out@ + spec_fix_msg_from(v@, i as int),
        decreases n - i,
    {
        proof {
            reveal_strlit("msg!(");
            reveal_strlit("msg ! (");
        }
        let ghost pre = out@;
        if crate::text::match_at_in(&v, &compact, i) {
            proof {
                lemma_msg_collect_bound(v@, i + 5, 1, Seq::empty());
            }
            let rj = msg_collect_x(&v, i + 5);
            if has_comma_outside_strings(crate::text::string_of(&rj.0).as_str()) {
                append_str(&mut out, "// msg!(");
            } else {
                append_str(&mut out, "msg!(");
            }
            append_all(&mut out, &rj.0);
            append_str(&mut out, ")");
            assert(out@ + spec_fix_msg_from(v@, rj.1 as int) =~= pre + spec_fix_msg_from(
                v@,
                i as int,
            ));
            i = rj.1;
        } else if crate::text::match_at_in(&v, &spaced, i) {
            proof {
                lemma_msg_collect_bound(v@, i + 7, 1, Seq::empty());
            }
            let rj = msg_collect_x(&v, i + 7);
            if has_comma_outside_strings(crate::text::string_of(&rj.0).as_str()) {
                append_str(&mut out, "// msg!(");
            } else {
                append_str(&mut out, "msg!(");
            }
            append_all(&mut out, &rj.0);
            append_str(&mut out, ")");
            assert(out@ + spec_fix_msg_from(v@, rj.1 as int) =~= pre + spec_fix_msg_from(
                v@,
                i as int,
            ));
            i = rj.1;
        } else {
            out.push(v[i]);
            assert(out@ + spec_fix_msg_from(v@, i + 1) =~= pre + spec_fix_msg_from(v@, i as int));
            i = i + 1;
        }
    }
    assert(spec_fix_msg_from(v@, n as int) =~= Seq::<char>::empty());
    assert(out@ =~= out@ + spec_fix_msg_from(v@, n as int));
    crate::text::string_of(&out)
}

} // verus!
