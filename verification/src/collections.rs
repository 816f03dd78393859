//! Bounded-sequence lowering: rewrites append, length, emptiness, iteration,
//! clear and removal operations on a named sequence to the fixed-capacity
//! array plus length-counter convention, and generates the accessor helpers
//! for a record's bounded sequences.
//!
//! Appending beyond capacity becomes an explicit error return, never a
//! silent overflow; removal shifts the live suffix left and decrements the
//! counter; iteration covers the live prefix only.

use vstd::prelude::*;
use crate::ir::VecField;
use crate::text::{
    append_all, append_str, chars_of, contains_seq, dec_str, replace_in, replace_seq, string_of,
    usize_to_dec,
};

verus! {

/// The append-call matches the pattern matcher finds in a body for a given
/// sequence name: for each, the full matched text, the optional object
/// prefix, the appended value, and whether a `?` follows.
pub uninterp spec fn push_captures(body: Seq<char>, name: Seq<char>) -> Seq<
    (Seq<char>, Seq<char>, Seq<char>, bool),
>;

/// Relies on regex::Regex::captures_iter with the pattern
/// `(\w+\.)?NAME\s*\.\s*push\s*\(\s*([^)]+)\s*\)\s*(\?)?`, NAME being the
/// escaped sequence name: yields, per match, the whole match, the optional
/// `word.` prefix, the appended value, and whether `?` follows.  The match
/// list depends on the body and the name alone.
#[verifier::external_body]
fn push_captures_x(body: &str, name: &str) -> (r: Vec<(String, String, String, bool)>)
    ensures
        r.deep_view() == push_captures(body@, name@),
{
    let mut out: Vec<(String, String, String, bool)> = Vec::new();
    let pat = format!(r"(\w+\.)?{}\s*\.\s*push\s*\(\s*([^)]+)\s*\)\s*(\?)?", regex::escape(name));
    if let Ok(re) = regex::Regex::new(&pat) {
        for cap in re.captures_iter(body) {
            let full = cap.get(0).map(|m| m.as_str()).unwrap_or("").to_string();
            let prefix = cap.get(1).map(|m| m.as_str()).unwrap_or("").to_string();
            let value = cap.get(2).map(|m| m.as_str()).unwrap_or("").to_string();
            out.push((full, prefix, value, cap.get(3).is_some()));
        }
    }
    out
}

/// The iteration-call matches for a sequence name: full matched text and
/// optional object prefix.
pub uninterp spec fn iter_captures(body: Seq<char>, name: Seq<char>) -> Seq<
    (Seq<char>, Seq<char>),
>;

/// Relies on regex::Regex::captures_iter with the pattern
/// `(\w+\.)?NAME\s*\.\s*iter\s*\(\s*\)`, NAME being the escaped sequence
/// name: yields, per match, the whole match and the optional `word.` prefix.
/// The match list depends on the body and the name alone.
#[verifier::external_body]
fn iter_captures_x(body: &str, name: &str) -> (r: Vec<(String, String)>)
    ensures
        r.deep_view() == iter_captures(body@, name@),
{
    let mut out: Vec<(String, String)> = Vec::new();
    let pat = format!(r"(\w+\.)?{}\s*\.\s*iter\s*\(\s*\)", regex::escape(name));
    if let Ok(re) = regex::Regex::new(&pat) {
        for cap in re.captures_iter(body) {
            let full = cap.get(0).map(|m| m.as_str()).unwrap_or("").to_string();
            let prefix = cap.get(1).map(|m| m.as_str()).unwrap_or("").to_string();
            out.push((full, prefix));
        }
    }
    out
}

/// The removal-call matches for a sequence name: full matched text, optional
/// object prefix, and the index expression.
pub uninterp spec fn remove_captures(body: Seq<char>, name: Seq<char>) -> Seq<
    (Seq<char>, Seq<char>, Seq<char>),
>;

/// Relies on regex::Regex::captures_iter with the pattern
/// `(\w+\.)?NAME\s*\.\s*remove\s*\(\s*([^)]+)\s*\)`, NAME being the escaped
/// sequence name: yields, per match, the whole match, the optional `word.`
/// prefix, and the index expression.  The match list depends on the body and
/// the name alone.
#[verifier::external_body]
fn remove_captures_x(body: &str, name: &str) -> (r: Vec<(String, String, String)>)
    ensures
        r.deep_view() == remove_captures(body@, name@),
{
    let mut out: Vec<(String, String, String)> = Vec::new();
    let pat = format!(r"(\w+\.)?{}\s*\.\s*remove\s*\(\s*([^)]+)\s*\)", regex::escape(name));
    if let Ok(re) = regex::Regex::new(&pat) {
        for cap in re.captures_iter(body) {
            let full = cap.get(0).map(|m| m.as_str()).unwrap_or("").to_string();
            let prefix = cap.get(1).map(|m| m.as_str()).unwrap_or("").to_string();
            let index = cap.get(2).map(|m| m.as_str()).unwrap_or("").to_string();
            out.push((full, prefix, index));
        }
    }
    out
}

/// The text an append call is rewritten to: a capacity check that returns an
/// explicit error when the counter has reached the capacity, the indexed
/// store, and the counter increment.
pub open spec fn spec_push_replacement(
    prefix: Seq<char>,
    value: Seq<char>,
    has_q: bool,
    vec_name: Seq<char>,
    len_name: Seq<char>,
    max_len: nat,
) -> Seq<char> {
    if has_q {
        "{ if "@ + prefix + len_name + " as usize >= "@ + dec_str(max_len)
            + " { return Err(ProgramError::Custom(0)); } "@ + prefix + vec_name + "["@ + prefix
            + len_name + " as usize] = "@ + value + "; "@ + prefix + len_name
            + " += 1; Ok::<(), ProgramError>(()) }?"@
    } else {
        "{ if ("@ + prefix + len_name + " as usize) >= "@ + dec_str(max_len)
            + " { return Err(ProgramError::Custom(0)); } "@ + prefix + vec_name + "["@ + prefix
            + len_name + " as usize] = *"@ + value + "; "@ + prefix + len_name + " += 1; }"@
    }
}

/// Applies the append rewrites for the matches from `i` on.
pub open spec fn spec_apply_push(
    s: Seq<char>,
    caps: Seq<(Seq<char>, Seq<char>, Seq<char>, bool)>,
    i: int,
    vec_name: Seq<char>,
    len_name: Seq<char>,
    max_len: nat,
) -> Seq<char>
    decreases caps.len() - i,
{
    if i < 0 || i >= caps.len() {
        s
    } else {
        spec_apply_push(
            replace_seq(
                s,
                caps[i].0,
                spec_push_replacement(caps[i].1, caps[i].2, caps[i].3, vec_name, len_name, max_len),
            ),
            caps,
            i + 1,
            vec_name,
            len_name,
            max_len,
        )
    }
}

/// The text an iteration call is rewritten to: iteration over the live
/// prefix only.
pub open spec fn spec_iter_replacement(
    prefix: Seq<char>,
    vec_name: Seq<char>,
    len_name: Seq<char>,
) -> Seq<char> {
    prefix + vec_name + "[.."@ + prefix + len_name + " as usize].iter()"@
}

/// Applies the iteration rewrites for the matches from `i` on.
pub open spec fn spec_apply_iter(
    s: Seq<char>,
    caps: Seq<(Seq<char>, Seq<char>)>,
    i: int,
    vec_name: Seq<char>,
    len_name: Seq<char>,
) -> Seq<char>
    decreases caps.len() - i,
{
    if i < 0 || i >= caps.len() {
        s
    } else {
        spec_apply_iter(
            replace_seq(s, caps[i].0, spec_iter_replacement(caps[i].1, vec_name, len_name)),
            caps,
            i + 1,
            vec_name,
            len_name,
        )
    }
}

/// The text a removal call is rewritten to: shift the live suffix left by
/// one, then decrement the counter.
pub open spec fn spec_remove_replacement(
    prefix: Seq<char>,
    index: Seq<char>,
    vec_name: Seq<char>,
    len_name: Seq<char>,
) -> Seq<char> {
    "{ let idx = "@ + index + "; for i in idx..("@ + prefix + len_name + " as usize - 1) { "@
        + prefix + vec_name + "[i] = "@ + prefix + vec_name + "[i + 1]; } "@ + prefix + len_name
        + " -= 1; }"@
}

/// Applies the removal rewrites for the matches from `i` on.
pub open spec fn spec_apply_remove(
    s: Seq<char>,
    caps: Seq<(Seq<char>, Seq<char>, Seq<char>)>,
    i: int,
    vec_name: Seq<char>,
    len_name: Seq<char>,
) -> Seq<char>
    decreases caps.len() - i,
{
    if i < 0 || i >= caps.len() {
        s
    } else {
        spec_apply_remove(
            replace_seq(s, caps[i].0, spec_remove_replacement(caps[i].1, caps[i].2, vec_name, len_name)),
            caps,
            i + 1,
            vec_name,
            len_name,
        )
    }
}

/// All the rewrites for one bounded sequence, in order: appends, lengths,
/// emptiness, iteration, clear, removal, construction, and checked access.
pub open spec fn spec_lower_field(s: Seq<char>, name: Seq<char>, max_len: nat) -> Seq<char> {
    let len_name = name + "_len"@;
    let s1 = spec_apply_push(s, push_captures(s, name), 0, name, len_name, max_len);
    let s2 = replace_seq(s1, name + ".len()"@, len_name + " as usize"@);
    let s3 = replace_seq(s2, "."@ + name + ".len ()"@, "."@ + len_name + " as usize"@);
    let s4 = replace_seq(s3, "."@ + name + ".len()"@, "."@ + len_name + " as usize"@);
    let s5 = replace_seq(s4, name + ".is_empty()"@, "("@ + len_name + " == 0)"@);
    let s6 = spec_apply_iter(s5, iter_captures(s5, name), 0, name, len_name);
    let s7 = replace_seq(s6, name + ".clear()"@, len_name + " = 0"@);
    let s8 = spec_apply_remove(s7, remove_captures(s7, name), 0, name, len_name);
    let s9 = replace_seq(s8, "Vec::new()"@, "[Default::default(); "@ + dec_str(max_len) + "]"@);
    replace_seq(
        s9,
        name + ".get("@,
        "if "@ + len_name + " as usize > "@ + name + ".len() { None } else { "@ + name + ".get("@,
    )
}

/// The whole bounded-sequence lowering: one pass per sequence field, in
/// order.
pub open spec fn spec_transform_vec_operations(s: Seq<char>, fields: Seq<VecField>, i: int) -> Seq<
    char,
>
    decreases fields.len() - i,
{
    if i < 0 || i >= fields.len() {
        s
    } else {
        spec_transform_vec_operations(
            spec_lower_field(s, fields[i].name@, fields[i].spec_max_len()),
            fields,
            i + 1,
        )
    }
}

fn lower_field(s: &Vec<char>, field: &VecField) -> (r: Vec<char>)
    ensures
        r@ == spec_lower_field(s@, field.name@, field.spec_max_len()),
{
    let name = chars_of(field.name.as_str());
    let mut len_name = chars_of(field.name.as_str());
    append_str(&mut len_name, "_len");
    let max_len = field.get_max_len();
    let max_dec = usize_to_dec(max_len);

    // Append rewrites.
    let body_str = string_of(s);
    let caps = push_captures_x(body_str.as_str(), field.name.as_str());
    let mut cur: Vec<char> = s.clone();
    let nc = caps.len();
    let ghost caps0 = push_captures(s@, field.name@);
    for ci in 0..nc
        invariant
            nc == caps@.len(),
            caps.deep_view() == caps0,
            name@ == field.name@,
            len_name@ == field.name@ + "_len"@,
            max_len as nat == field.spec_max_len(),
            max_dec@ == dec_str(field.spec_max_len()),
            spec_apply_push(cur@, caps0, ci as int, name@, len_name@, max_len as nat)
                == spec_apply_push(s@, caps0, 0, name@, len_name@, max_len as nat),
    {
        let c = &caps[ci];
        let full = chars_of(c.0.as_str());
        let mut repl: Vec<char> = Vec::new();
        if c.3 {
            append_str(&mut repl, "{ if ");
            append_str(&mut repl, c.1.as_str());
            append_all(&mut repl, &len_name);
            append_str(&mut repl, " as usize >= ");
            append_all(&mut repl, &max_dec);
            append_str(&mut repl, " { return Err(ProgramError::Custom(0)); } ");
            append_str(&mut repl, c.1.as_str());
            append_all(&mut repl, &name);
            append_str(&mut repl, "[");
            append_str(&mut repl, c.1.as_str());
            append_all(&mut repl, &len_name);
            append_str(&mut repl, " as usize] = ");
            append_str(&mut repl, c.2.as_str());
            append_str(&mut repl, "; ");
            append_str(&mut repl, c.1.as_str());
            append_all(&mut repl, &len_name);
            append_str(&mut repl, " += 1; Ok::<(), ProgramError>(()) }?");
        } else {
            append_str(&mut repl, "{ if (");
            append_str(&mut repl, c.1.as_str());
            append_all(&mut repl, &len_name);
            append_str(&mut repl, " as usize) >= ");
            append_all(&mut repl, &max_dec);
            append_str(&mut repl, " { return Err(ProgramError::Custom(0)); } ");
            append_str(&mut repl, c.1.as_str());
            append_all(&mut repl, &name);
            append_str(&mut repl, "[");
            append_str(&mut repl, c.1.as_str());
            append_all(&mut repl, &len_name);
            append_str(&mut repl, " as usize] = *");
            append_str(&mut repl, c.2.as_str());
            append_str(&mut repl, "; ");
            append_str(&mut repl, c.1.as_str());
            append_all(&mut repl, &len_name);
            append_str(&mut repl, " += 1; }");
        }
        proof {
            assert(caps.deep_view()[ci as int] == (c.0@, c.1@, c.2@, c.3));
            assert(repl@ == spec_push_replacement(
                c.1@,
                c.2@,
                c.3,
                name@,
                len_name@,
                max_len as nat,
            ));
        }
        cur = replace_in(&cur, &full, &repl);
    }

    // Length and emptiness rewrites.
    let mut p: Vec<char> = Vec::new();
    append_all(&mut p, &name);
    append_str(&mut p, ".len()");
    let mut q: Vec<char> = Vec::new();
    append_all(&mut q, &len_name);
    append_str(&mut q, " as usize");
    cur = replace_in(&cur, &p, &q);

    let mut p2: Vec<char> = Vec::new();
    append_str(&mut p2, ".");
    append_all(&mut p2, &name);
    append_str(&mut p2, ".len ()");
    let mut q2: Vec<char> = Vec::new();
    append_str(&mut q2, ".");
    append_all(&mut q2, &len_name);
    append_str(&mut q2, " as usize");
    cur = replace_in(&cur, &p2, &q2);

    let mut p3: Vec<char> = Vec::new();
    append_str(&mut p3, ".");
    append_all(&mut p3, &name);
    append_str(&mut p3, ".len()");
    cur = replace_in(&cur, &p3, &q2);

    let mut p4: Vec<char> = Vec::new();
    append_all(&mut p4, &name);
    append_str(&mut p4, ".is_empty()");
    let mut q4: Vec<char> = Vec::new();
    append_str(&mut q4, "(");
    append_all(&mut q4, &len_name);
    append_str(&mut q4, " == 0)");
    cur = replace_in(&cur, &p4, &q4);

    // Iteration rewrites.
    let cur_str = string_of(&cur);
    let icaps = iter_captures_x(cur_str.as_str(), field.name.as_str());
    let ghost icaps0 = iter_captures(cur@, field.name@);
    let ghost iter_base = cur@;
    let ni = icaps.len();
    for ci in 0..ni
        invariant
            ni == icaps@.len(),
            icaps.deep_view() == icaps0,
            name@ == field.name@,
            len_name@ == field.name@ + "_len"@,
            spec_apply_iter(cur@, icaps0, ci as int, name@, len_name@) == spec_apply_iter(
                iter_base,
                icaps0,
                0,
                name@,
                len_name@,
            ),
    {
        let c = &icaps[ci];
        let full = chars_of(c.0.as_str());
        let mut repl: Vec<char> = Vec::new();
        append_str(&mut repl, c.1.as_str());
        append_all(&mut repl, &name);
        append_str(&mut repl, "[..");
        append_str(&mut repl, c.1.as_str());
        append_all(&mut repl, &len_name);
        append_str(&mut repl, " as usize].iter()");
        proof {
            assert(icaps.deep_view()[ci as int] == (c.0@, c.1@));
            assert(repl@ == spec_iter_replacement(c.1@, name@, len_name@));
        }
        cur = replace_in(&cur, &full, &repl);
    }

    // Clear rewrites.
    let mut p5: Vec<char> = Vec::new();
    append_all(&mut p5, &name);
    append_str(&mut p5, ".clear()");
    let mut q5: Vec<char> = Vec::new();
    append_all(&mut q5, &len_name);
    append_str(&mut q5, " = 0");
    cur = replace_in(&cur, &p5, &q5);

    // Removal rewrites.
    let cur_str2 = string_of(&cur);
    let rcaps = remove_captures_x(cur_str2.as_str(), field.name.as_str());
    let ghost rcaps0 = remove_captures(cur@, field.name@);
    let ghost remove_base = cur@;
    let nr = rcaps.len();
    for ci in 0..nr
        invariant
            nr == rcaps@.len(),
            rcaps.deep_view() == rcaps0,
            name@ == field.name@,
            len_name@ == field.name@ + "_len"@,
            spec_apply_remove(cur@, rcaps0, ci as int, name@, len_name@) == spec_apply_remove(
                remove_base,
                rcaps0,
                0,
                name@,
                len_name@,
            ),
    {
        let c = &rcaps[ci];
        let full = chars_of(c.0.as_str());
        let mut repl: Vec<char> = Vec::new();
        append_str(&mut repl, "{ let idx = ");
        append_str(&mut repl, c.2.as_str());
        append_str(&mut repl, "; for i in idx..(");
        append_str(&mut repl, c.1.as_str());
        append_all(&mut repl, &len_name);
        append_str(&mut repl, " as usize - 1) { ");
        append_str(&mut repl, c.1.as_str());
        append_all(&mut repl, &name);
        append_str(&mut repl, "[i] = ");
        append_str(&mut repl, c.1.as_str());
        append_all(&mut repl, &name);
        append_str(&mut repl, "[i + 1]; } ");
        append_str(&mut repl, c.1.as_str());
        append_all(&mut repl, &len_name);
        append_str(&mut repl, " -= 1; }");
        proof {
            assert(rcaps.deep_view()[ci as int] == (c.0@, c.1@, c.2@));
            assert(repl@ == spec_remove_replacement(c.1@, c.2@, name@, len_name@));
        }
        cur = replace_in(&cur, &full, &repl);
    }

    // Construction and checked access.
    let p6 = chars_of("Vec::new()");
    let mut q6: Vec<char> = Vec::new();
    append_str(&mut q6, "[Default::default(); ");
    append_all(&mut q6, &max_dec);
    append_str(&mut q6, "]");
    cur = replace_in(&cur, &p6, &q6);

    let mut p7: Vec<char> = Vec::new();
    append_all(&mut p7, &name);
    append_str(&mut p7, ".get(");
    let mut q7: Vec<char> = Vec::new();
    append_str(&mut q7, "if ");
    append_all(&mut q7, &len_name);
    append_str(&mut q7, " as usize > ");
    append_all(&mut q7, &name);
    append_str(&mut q7, ".len() { None } else { ");
    append_all(&mut q7, &name);
    append_str(&mut q7, ".get(");
    cur = replace_in(&cur, &p7, &q7);
    cur
}

/// Rewrites every operation on the named bounded sequences of a body to the
/// fixed-capacity array plus length-counter convention.  Appending beyond a
/// sequence's resolved capacity becomes an explicit error return.
pub fn transform_vec_operations(body: &str, vec_fields: &[VecField]) -> (r: String)
    ensures
        r@ == spec_transform_vec_operations(body@, vec_fields@, 0),
{
    let mut cur = chars_of(body);
    let n = vec_fields.len();
    for i in 0..n
        invariant
            n == vec_fields@.len(),
            spec_transform_vec_operations(cur@, vec_fields@, i as int)
                == spec_transform_vec_operations(body@, vec_fields@, 0),
    {
        cur = lower_field(&cur, &vec_fields[i]);
    }
    string_of(&cur)
}

/// Opening of the helper block, through the append capacity check.
pub open spec fn spec_helper_push_head(
    state: Seq<char>,
    v: Seq<char>,
    l: Seq<char>,
    elem: Seq<char>,
    max: nat,
) -> Seq<char> {
    "\nimpl "@ + state + " {\n    /// Push an item to "@ + v + "\n    pub fn push_"@ + v
        + "(&mut self, item: "@ + elem + ") -> Result<(), ProgramError> {\n        if self."@ + l
        + " as usize >= "@ + dec_str(max)
}

/// Body of the append helper: error at capacity, store, increment.
pub open spec fn spec_helper_push_tail(v: Seq<char>, l: Seq<char>) -> Seq<char> {
    " {\n            return Err(ProgramError::Custom(0)); // VecOverflow\n        }\n        self."@
        + v + "[self."@ + l + " as usize] = item;\n        self."@ + l
        + " += 1;\n        Ok(())\n    }\n\n"@
}

/// The length and emptiness helpers.
pub open spec fn spec_helper_len_part(v: Seq<char>, l: Seq<char>) -> Seq<char> {
    "    /// Get the length of "@ + v + "\n    pub fn "@ + v
        + "_len(&self) -> usize {\n        self."@ + l + " as usize\n    }\n\n    /// Check if "@
        + v + " is empty\n    pub fn "@ + v + "_is_empty(&self) -> bool {\n        self."@ + l
        + " == 0\n    }\n\n"@
}

/// The clear helper: resets the length only.
pub open spec fn spec_helper_clear_part(v: Seq<char>, l: Seq<char>) -> Seq<char> {
    "    /// Clear "@ + v + " (set length to 0)\n    pub fn clear_"@ + v
        + "(&mut self) {\n        self."@ + l + " = 0;\n    }\n\n"@
}

/// The live-prefix iteration helper.
pub open spec fn spec_helper_iter_part(v: Seq<char>, l: Seq<char>, elem: Seq<char>) -> Seq<char> {
    "    /// Get an iterator over "@ + v + "\n    pub fn "@ + v
        + "_iter(&self) -> impl Iterator<Item = &"@ + elem + "> {\n        self."@ + v
        + "[..self."@ + l + " as usize].iter()\n    }\n}\n"@
}

/// The accessor helpers generated for one bounded sequence of a record:
/// bounds-checked append that errors at capacity, length, emptiness, clear
/// (length reset only), and live-prefix iteration.
pub open spec fn spec_vec_helper_block(
    state: Seq<char>,
    v: Seq<char>,
    l: Seq<char>,
    elem: Seq<char>,
    max: nat,
) -> Seq<char> {
    spec_helper_push_head(state, v, l, elem, max) + spec_helper_push_tail(v, l)
        + spec_helper_len_part(v, l) + spec_helper_clear_part(v, l) + spec_helper_iter_part(
        v,
        l,
        elem,
    )
}

/// The accessor helpers for all bounded sequences of a record, from field
/// `i` on, concatenated in order.
pub open spec fn spec_generate_vec_helpers(
    state: Seq<char>,
    fields: Seq<VecField>,
    i: int,
) -> Seq<char>
    decreases fields.len() - i,
{
    if i < 0 || i >= fields.len() {
        Seq::empty()
    } else {
        spec_vec_helper_block(
            state,
            fields[i].name@,
            fields[i].name@ + "_len"@,
            fields[i].element_type@,
            fields[i].spec_max_len(),
        ) + spec_generate_vec_helpers(state, fields, i + 1)
    }
}

#[verifier::rlimit(100)]
fn vec_helper_block(state_name: &str, f: &VecField) -> (r: Vec<char>)
    ensures
        r@ == spec_vec_helper_block(
            state_name@,
            f.name@,
            f.name@ + "_len"@,
            f.element_type@,
            f.spec_max_len(),
        ),
{
    let name = chars_of(f.name.as_str());
    let mut len_name = chars_of(f.name.as_str());
    append_str(&mut len_name, "_len");
    let elem = chars_of(f.element_type.as_str());
    let max_dec = usize_to_dec(f.get_max_len());
    let ghost v_g = f.name@;
    let ghost l_g = f.name@ + "_len"@;
    let ghost e_g = f.element_type@;
    let ghost m_g = f.spec_max_len();
    let mut out: Vec<char> = Vec::new();

    append_str(&mut out, "\nimpl ");
    append_str(&mut out, state_name);
    append_str(&mut out, " {\n    /// Push an item to ");
    append_all(&mut out, &name);
    append_str(&mut out, "\n    pub fn push_");
    append_all(&mut out, &name);
    append_str(&mut out, "(&mut self, item: ");
    append_all(&mut out, &elem);
    append_str(&mut out, ") -> Result<(), ProgramError> {\n        if self.");
    append_all(&mut out, &len_name);
    append_str(&mut out, " as usize >= ");
    append_all(&mut out, &max_dec);
    assert(out@ =~= spec_helper_push_head(state_name@, v_g, l_g, e_g, m_g));
    let ghost c1 = out@;
    append_str(
        &mut out,
        " {\n            return Err(ProgramError::Custom(0)); // VecOverflow\n        }\n        self.",
    );
    append_all(&mut out, &name);
    append_str(&mut out, "[self.");
    append_all(&mut out, &len_name);
    append_str(&mut out, " as usize] = item;\n        self.");
    append_all(&mut out, &len_name);
    append_str(&mut out, " += 1;\n        Ok(())\n    }\n\n");
    assert(out@ =~= c1 + spec_helper_push_tail(v_g, l_g));
    let ghost c2 = out@;
    append_str(&mut out, "    /// Get the length of ");
    append_all(&mut out, &name);
    append_str(&mut out, "\n    pub fn ");
    append_all(&mut out, &name);
    append_str(&mut out, "_len(&self) -> usize {\n        self.");
    append_all(&mut out, &len_name);
    append_str(&mut out, " as usize\n    }\n\n    /// Check if ");
    append_all(&mut out, &name);
    append_str(&mut out, " is empty\n    pub fn ");
    append_all(&mut out, &name);
    append_str(&mut out, "_is_empty(&self) -> bool {\n        self.");
    append_all(&mut out, &len_name);
    append_str(&mut out, " == 0\n    }\n\n");
    assert(out@ =~= c2 + spec_helper_len_part(v_g, l_g));
    let ghost c3 = out@;
    append_str(&mut out, "    /// Clear ");
    append_all(&mut out, &name);
    append_str(&mut out, " (set length to 0)\n    pub fn clear_");
    append_all(&mut out, &name);
    append_str(&mut out, "(&mut self) {\n        self.");
    append_all(&mut out, &len_name);
    append_str(&mut out, " = 0;\n    }\n\n");
    assert(out@ =~= c3 + spec_helper_clear_part(v_g, l_g));
    let ghost c4 = out@;
    append_str(&mut out, "    /// Get an iterator over ");
    append_all(&mut out, &name);
    append_str(&mut out, "\n    pub fn ");
    append_all(&mut out, &name);
    append_str(&mut out, "_iter(&self) -> impl Iterator<Item = &");
    append_all(&mut out, &elem);
    append_str(&mut out, "> {\n        self.");
    append_all(&mut out, &name);
    append_str(&mut out, "[..self.");
    append_all(&mut out, &len_name);
    append_str(&mut out, " as usize].iter()\n    }\n}\n");
    assert(out@ =~= c4 + spec_helper_iter_part(v_g, l_g, e_g));
    assert(out@ =~= spec_vec_helper_block(state_name@, v_g, l_g, e_g, m_g));
    out
}

/// Generates the accessor helpers for every bounded sequence of a record.
pub fn generate_vec_helpers(state_name: &str, vec_fields: &[VecField]) -> (r: String)
    ensures
        r@ == spec_generate_vec_helpers(state_name@, vec_fields@, 0),
{
    let mut out: Vec<char> = Vec::new();
    let n = vec_fields.len();
    assert(out@ + spec_generate_vec_helpers(state_name@, vec_fields@, 0)
        =~= spec_generate_vec_helpers(state_name@, vec_fields@, 0));
    for i in 0..n
        invariant
            n == vec_fields@.len(),
            spec_generate_vec_helpers(state_name@, vec_fields@, 0) == out@
                + spec_generate_vec_helpers(state_name@, vec_fields@, i as int),
    {
        let ghost pre = out@;
        let blk = vec_helper_block(state_name, &vec_fields[i]);
        append_all(&mut out, &blk);
        assert(out@ + spec_generate_vec_helpers(state_name@, vec_fields@, i + 1) =~= pre
            + spec_generate_vec_helpers(state_name@, vec_fields@, i as int));
    }
    assert(spec_generate_vec_helpers(state_name@, vec_fields@, n as int) =~= Seq::<char>::empty());
    assert(out@ + spec_generate_vec_helpers(state_name@, vec_fields@, n as int) =~= out@);
    string_of(&out)
}

/// Bounded-sequence safety: whatever append call is lowered, for whatever
/// sequence and capacity, the generated text carries an explicit error
/// return guarding the store — exceeding the capacity is a caller-visible
/// error, never a silent out-of-range write.
pub proof fn lemma_append_guard(
    prefix: Seq<char>,
    value: Seq<char>,
    has_q: bool,
    vec_name: Seq<char>,
    len_name: Seq<char>,
    max_len: nat,
)
    ensures
        contains_seq(
            spec_push_replacement(prefix, value, has_q, vec_name, len_name, max_len),
            "return Err(ProgramError::Custom(0));"@,
        ),
{
    let target = "return Err(ProgramError::Custom(0));"@;
    let guard = " { return Err(ProgramError::Custom(0)); } "@;
    reveal_strlit("return Err(ProgramError::Custom(0));");
    reveal_strlit(" { return Err(ProgramError::Custom(0)); } ");
    assert(guard.subrange(3, 3 + target.len() as int) =~= target);
    assert(crate::text::match_at(guard, target, 3));
    crate::text::lemma_match_gives_contains(guard, target, 3);
    if has_q {
        reveal_strlit("{ if ");
        reveal_strlit(" as usize >= ");
        let h = "{ if "@ + prefix + len_name + " as usize >= "@ + dec_str(max_len);
        crate::text::lemma_contains_concat_r(h, guard, target);
        let t1 = h + guard;
        crate::text::lemma_contains_concat_l(t1, prefix, target);
        crate::text::lemma_contains_concat_l(t1 + prefix, vec_name, target);
        crate::text::lemma_contains_concat_l(t1 + prefix + vec_name, "["@, target);
        crate::text::lemma_contains_concat_l(t1 + prefix + vec_name + "["@, prefix, target);
        crate::text::lemma_contains_concat_l(
            t1 + prefix + vec_name + "["@ + prefix,
            len_name,
            target,
        );
        crate::text::lemma_contains_concat_l(
            t1 + prefix + vec_name + "["@ + prefix + len_name,
            " as usize] = "@,
            target,
        );
        crate::text::lemma_contains_concat_l(
            t1 + prefix + vec_name + "["@ + prefix + len_name + " as usize] = "@,
            value,
            target,
        );
        crate::text::lemma_contains_concat_l(
            t1 + prefix + vec_name + "["@ + prefix + len_name + " as usize] = "@ + value,
            "; "@,
            target,
        );
        crate::text::lemma_contains_concat_l(
            t1 + prefix + vec_name + "["@ + prefix + len_name + " as usize] = "@ + value + "; "@,
            prefix,
            target,
        );
        crate::text::lemma_contains_concat_l(
            t1 + prefix + vec_name + "["@ + prefix + len_name + " as usize] = "@ + value + "; "@
                + prefix,
            len_name,
            target,
        );
        crate::text::lemma_contains_concat_l(
            t1 + prefix + vec_name + "["@ + prefix + len_name + " as usize] = "@ + value + "; "@
                + prefix + len_name,
            " += 1; Ok::<(), ProgramError>(()) }?"@,
            target,
        );
    } else {
        reveal_strlit("{ if (");
        reveal_strlit(" as usize) >= ");
        let h = "{ if ("@ + prefix + len_name + " as usize) >= "@ + dec_str(max_len);
        crate::text::lemma_contains_concat_r(h, guard, target);
        let t1 = h + guard;
        crate::text::lemma_contains_concat_l(t1, prefix, target);
        crate::text::lemma_contains_concat_l(t1 + prefix, vec_name, target);
        crate::text::lemma_contains_concat_l(t1 + prefix + vec_name, "["@, target);
        crate::text::lemma_contains_concat_l(t1 + prefix + vec_name + "["@, prefix, target);
        crate::text::lemma_contains_concat_l(
            t1 + prefix + vec_name + "["@ + prefix,
            len_name,
            target,
        );
        crate::text::lemma_contains_concat_l(
            t1 + prefix + vec_name + "["@ + prefix + len_name,
            " as usize] = *"@,
            target,
        );
        crate::text::lemma_contains_concat_l(
            t1 + prefix + vec_name + "["@ + prefix + len_name + " as usize] = *"@,
            value,
            target,
        );
        crate::text::lemma_contains_concat_l(
            t1 + prefix + vec_name + "["@ + prefix + len_name + " as usize] = *"@ + value,
            "; "@,
            target,
        );
        crate::text::lemma_contains_concat_l(
            t1 + prefix + vec_name + "["@ + prefix + len_name + " as usize] = *"@ + value + "; "@,
            prefix,
            target,
        );
        crate::text::lemma_contains_concat_l(
            t1 + prefix + vec_name + "["@ + prefix + len_name + " as usize] = *"@ + value + "; "@
                + prefix,
            len_name,
            target,
        );
        crate::text::lemma_contains_concat_l(
            t1 + prefix + vec_name + "["@ + prefix + len_name + " as usize] = *"@ + value + "; "@
                + prefix + len_name,
            " += 1; }"@,
            target,
        );
    }
}

/// Bounded-sequence safety for the generated accessor helpers: every append
/// helper carries the explicit error return guarding the store.
pub proof fn lemma_helper_append_guard(
    state: Seq<char>,
    v: Seq<char>,
    l: Seq<char>,
    elem: Seq<char>,
    max: nat,
)
    ensures
        contains_seq(
            spec_vec_helper_block(state, v, l, elem, max),
            "return Err(ProgramError::Custom(0));"@,
        ),
{
    let target = "return Err(ProgramError::Custom(0));"@;
    let tail = spec_helper_push_tail(v, l);
    reveal_strlit("return Err(ProgramError::Custom(0));");
    reveal_strlit(
        " {\n            return Err(ProgramError::Custom(0)); // VecOverflow\n        }\n        self.",
    );
    let lead = " {\n            return Err(ProgramError::Custom(0)); // VecOverflow\n        }\n        self."@;
    assert(lead.subrange(15, 15 + target.len() as int) =~= target);
    assert(crate::text::match_at(lead, target, 15));
    crate::text::lemma_match_gives_contains(lead, target, 15);
    crate::text::lemma_contains_concat_l(lead, v, target);
    crate::text::lemma_contains_concat_l(lead + v, "[self."@, target);
    crate::text::lemma_contains_concat_l(lead + v + "[self."@, l, target);
    crate::text::lemma_contains_concat_l(
        lead + v + "[self."@ + l,
        " as usize] = item;\n        self."@,
        target,
    );
    crate::text::lemma_contains_concat_l(
        lead + v + "[self."@ + l + " as usize] = item;\n        self."@,
        l,
        target,
    );
    crate::text::lemma_contains_concat_l(
        lead + v + "[self."@ + l + " as usize] = item;\n        self."@ + l,
        " += 1;\n        Ok(())\n    }\n\n"@,
        target,
    );
    assert(contains_seq(tail, target));
    crate::text::lemma_contains_concat_r(
        spec_helper_push_head(state, v, l, elem, max),
        tail,
        target,
    );
    let h2 = spec_helper_push_head(state, v, l, elem, max) + tail;
    crate::text::lemma_contains_concat_l(h2, spec_helper_len_part(v, l), target);
    crate::text::lemma_contains_concat_l(
        h2 + spec_helper_len_part(v, l),
        spec_helper_clear_part(v, l),
        target,
    );
    crate::text::lemma_contains_concat_l(
        h2 + spec_helper_len_part(v, l) + spec_helper_clear_part(v, l),
        spec_helper_iter_part(v, l, elem),
        target,
    );
}

} // verus!
