//! The transformation engine: turns the source-form model plus the fact set
//! into the target-form model.  Per instruction it resolves the account
//! group, computes the discriminator, maps accounts, generates the ordered
//! validation list, and rewrites the body through the ordered pass pipeline.
//!
//! The pipeline is deliberately total: an unrecognized fragment degrades to
//! an inert marker and never aborts a sibling instruction.

use vstd::prelude::*;
use vstd::string::*;
use crate::ir::{
    AccountConstraint, AccountType, AnchorAccount, AnchorAccountStruct, AnchorError,
    AnchorInstruction, AnchorProgram, AnchorStateStruct, InstructionArg, PdaInfo,
    PinocchioAccount, PinocchioConfig, PinocchioError, PinocchioField, PinocchioInstruction,
    PinocchioProgram, PinocchioState, ProgramAnalysis, Validation,
};
use crate::text::{
    append_all, append_range, append_str, chars_of, contains_in, contains_seq, count_in,
    count_seq, dec_str, eq_str, find_from, find_in, match_at, replace_in, replace_seq,
    replace_str, slice_of, split_words, starts_with_in, starts_with_seq, string_of, usize_to_dec,
};

verus! {

/// Pipeline configuration: which idioms to forbid, which entry point to
/// generate, whether cross-program calls are inlined, which discriminator
/// scheme to use, whether diagnostics are stripped, and the reserved
/// arithmetic relaxation.
#[derive(Debug, Clone, Copy, PartialEq, Eq, Structural)]
pub struct Config {
    pub no_alloc: bool,
    pub lazy_entrypoint: bool,
    pub inline_cpi: bool,
    pub anchor_compat: bool,
    pub no_logs: bool,
    pub unsafe_math: bool,
}

/// A fatal transformation error.
#[derive(Debug, Clone, PartialEq, Eq, Structural)]
pub enum TransformError {
    /// Two instructions of one program derived the same discriminator.
    DiscriminatorCollision,
}

// ------------------------------------------------------------------
// Simple replacement passes
// ------------------------------------------------------------------

/// The spacing, path, error-name and context normalizations applied to every
/// body before the structural passes run.
pub open spec fn spec_bulk_replacements(s: Seq<char>) -> Seq<char> {
    let s01 = replace_seq(s, " . "@, "."@);
    let s02 = replace_seq(s01, " :: "@, "::"@);
    let s03 = replace_seq(s02, "( )"@, "()"@);
    let s04 = replace_seq(s03, "< "@, "<"@);
    let s05 = replace_seq(s04, " >"@, ">"@);
    let s06 = replace_seq(s05, " ,"@, ","@);
    let s07 = replace_seq(s06, "> ="@, ">="@);
    let s08 = replace_seq(s07, "< ="@, "<="@);
    let s09 = replace_seq(s08, "= ="@, "=="@);
    let s10 = replace_seq(s09, "! ="@, "!="@);
    let s11 = replace_seq(s10, "Clock::get()?"@, "Clock::get()"@);
    let s12 = replace_seq(s11, "anchor_lang::error::Error"@, "ProgramError"@);
    let s13 = replace_seq(s12, "anchor_lang::error!"@, "return Err("@);
    let s14 = replace_seq(
        s13,
        "anchor_lang::solana_program::hash::hash"@,
        "crate::helpers::compute_hash"@,
    );
    let s15 = replace_seq(
        s14,
        "anchor_lang :: solana_program :: hash :: hash"@,
        "crate::helpers::compute_hash"@,
    );
    let s16 = replace_seq(s15, "std::cmp::"@, "core::cmp::"@);
    let s17 = replace_seq(s16, "std::mem::"@, "core::mem::"@);
    let s18 = replace_seq(s17, "StableSwapError :: "@, "Error::"@);
    let s19 = replace_seq(s18, "StableSwapError::"@, "Error::"@);
    let s20 = replace_seq(s19, "ProtocolError :: "@, "Error::"@);
    let s21 = replace_seq(s20, "ProtocolError::"@, "Error::"@);
    let s22 = replace_seq(s21, "ProgramError :: "@, "Error::"@);
    let s23 = replace_seq(s22, "ProgramError::"@, "Error::"@);
    let s24 = replace_seq(s23, "ctx . accounts . "@, ""@);
    let s25 = replace_seq(s24, "ctx.accounts."@, ""@);
    let s26 = replace_seq(s25, "ctx . bumps . "@, "_bump_"@);
    let s27 = replace_seq(s26, "ctx.bumps."@, "_bump_"@);
    replace_seq(s27, "ctx.program_id"@, "program_id"@)
}

fn apply_bulk_replacements(v: &Vec<char>) -> (r: Vec<char>)
    ensures
        r@ == spec_bulk_replacements(v@),
{
    let mut cur = replace_str(v, " . ", ".");
    cur = replace_str(&cur, " :: ", "::");
    cur = replace_str(&cur, "( )", "()");
    cur = replace_str(&cur, "< ", "<");
    cur = replace_str(&cur, " >", ">");
    cur = replace_str(&cur, " ,", ",");
    cur = replace_str(&cur, "> =", ">=");
    cur = replace_str(&cur, "< =", "<=");
    cur = replace_str(&cur, "= =", "==");
    cur = replace_str(&cur, "! =", "!=");
    cur = replace_str(&cur, "Clock::get()?", "Clock::get()");
    cur = replace_str(&cur, "anchor_lang::error::Error", "ProgramError");
    cur = replace_str(&cur, "anchor_lang::error!", "return Err(");
    cur = replace_str(&cur, "anchor_lang::solana_program::hash::hash", "crate::helpers::compute_hash");
    cur = replace_str(&cur, "anchor_lang :: solana_program :: hash :: hash", "crate::helpers::compute_hash");
    cur = replace_str(&cur, "std::cmp::", "core::cmp::");
    cur = replace_str(&cur, "std::mem::", "core::mem::");
    cur = replace_str(&cur, "StableSwapError :: ", "Error::");
    cur = replace_str(&cur, "StableSwapError::", "Error::");
    cur = replace_str(&cur, "ProtocolError :: ", "Error::");
    cur = replace_str(&cur, "ProtocolError::", "Error::");
    cur = replace_str(&cur, "ProgramError :: ", "Error::");
    cur = replace_str(&cur, "ProgramError::", "Error::");
    cur = replace_str(&cur, "ctx . accounts . ", "");
    cur = replace_str(&cur, "ctx.accounts.", "");
    cur = replace_str(&cur, "ctx . bumps . ", "_bump_");
    cur = replace_str(&cur, "ctx.bumps.", "_bump_");
    cur = replace_str(&cur, "ctx.program_id", "program_id");
    cur
}

// ------------------------------------------------------------------
// Account names, longest first
// ------------------------------------------------------------------

/// Inserts a name into a list ordered by descending length, after any name
/// of the same length already there.
pub open spec fn insert_name_desc(x: Seq<char>, s: Seq<Seq<char>>) -> Seq<Seq<char>>
    decreases s.len(),
{
    if s.len() == 0 {
        seq![x]
    } else if x.len() > s[0].len() {
        seq![x] + s
    } else {
        seq![s[0]] + insert_name_desc(x, s.skip(1))
    }
}

/// The names sorted by descending length, stably: the order a stable sort
/// by descending length produces.
pub open spec fn sort_names_desc_from(names: Seq<Seq<char>>, i: int, acc: Seq<Seq<char>>) -> Seq<
    Seq<char>,
>
    decreases names.len() - i,
{
    if i < 0 || i >= names.len() {
        acc
    } else {
        sort_names_desc_from(names, i + 1, insert_name_desc(names[i], acc))
    }
}

/// The names sorted by descending length, stably.
pub open spec fn sort_names_desc(names: Seq<Seq<char>>) -> Seq<Seq<char>> {
    sort_names_desc_from(names, 0, Seq::empty())
}

fn clone_chars(v: &Vec<char>) -> (r: Vec<char>)
    ensures
        r@ == v@,
{
    let n = v.len();
    let r = slice_of(v, 0, n);
    assert(v@.subrange(0, n as int) =~= v@);
    r
}

fn insert_name_from(x: &Vec<char>, s: &Vec<Vec<char>>, i: usize) -> (r: Vec<Vec<char>>)
    requires
        i <= s@.len(),
    ensures
        r.deep_view() == insert_name_desc(x@, s.deep_view().skip(i as int)),
    decreases s@.len() - i,
{
    if i >= s.len() {
        let mut r: Vec<Vec<char>> = Vec::new();
        r.push(clone_chars(x));
        assert(s.deep_view().skip(i as int) =~~= Seq::<Seq<char>>::empty());
        assert(r.deep_view() =~~= seq![x@]);
        r
    } else if x.len() > s[i].len() {
        let mut r: Vec<Vec<char>> = Vec::new();
        r.push(clone_chars(x));
        let n = s.len();
        for k in i..n
            invariant
                i <= k <= n,
                n == s@.len(),
                r@.len() == 1 + k - i,
                r@[0]@ == x@,
                forall|m: int| 1 <= m < r@.len() ==> (#[trigger] r@[m])@ == s@[i + m - 1]@,
        {
            r.push(clone_chars(&s[k]));
        }
        proof {
            let target = seq![x@] + s.deep_view().skip(i as int);
            assert(s.deep_view().len() == s@.len());
            assert forall|m: int| 0 <= m < r@.len() implies #[trigger] r.deep_view()[m]
                == target[m] by {
                assert(r.deep_view()[m] == r@[m].deep_view());
                assert(r@[m].deep_view() =~= r@[m]@);
                if m >= 1 {
                    assert(s.deep_view()[i + m - 1] == s@[i + m - 1].deep_view());
                    assert(s@[i + m - 1].deep_view() =~= s@[i + m - 1]@);
                }
            }
            assert(r.deep_view().len() == target.len());
            assert(r.deep_view() =~= target);
        }
        r
    } else {
        let mut rest = insert_name_from(x, s, i + 1);
        rest.insert(0, clone_chars(&s[i]));
        assert(rest.deep_view() =~~= seq![s.deep_view()[i as int]] + insert_name_desc(
            x@,
            s.deep_view().skip(i + 1),
        ));
        assert(s.deep_view().skip(i as int)[0] == s.deep_view()[i as int]);
        assert(s.deep_view().skip(i as int).skip(1) =~~= s.deep_view().skip(i + 1));
        rest
    }
}

/// Sorts names stably by descending length.
pub fn sort_names(names: &Vec<Vec<char>>) -> (r: Vec<Vec<char>>)
    ensures
        r.deep_view() == sort_names_desc(names.deep_view()),
{
    let n = names.len();
    let mut acc: Vec<Vec<char>> = Vec::new();
    assert(acc.deep_view() =~~= Seq::<Seq<char>>::empty());
    for i in 0..n
        invariant
            n == names@.len(),
            sort_names_desc(names.deep_view()) == sort_names_desc_from(
                names.deep_view(),
                i as int,
                acc.deep_view(),
            ),
    {
        let x = &names[i];
        let acc2 = insert_name_from(x, &acc, 0);
        proof {
            assert(acc.deep_view().skip(0) =~~= acc.deep_view());
            assert(names.deep_view()[i as int] == names@[i as int]@);
        }
        acc = acc2;
    }
    acc
}

// ------------------------------------------------------------------
// State-field promotion
// ------------------------------------------------------------------

/// The record type guessed for an account name: the known names map
/// directly; any other name is capitalized word by word.
pub open spec fn spec_state_type(name: Seq<char>) -> Seq<char> {
    if name == "pool"@ {
        "StablePool"@
    } else if name == "farm"@ || name == "farming_period"@ {
        "FarmingPeriod"@
    } else if name == "user_position"@ || name == "position"@ || name == "stake_position"@ {
        "UserFarmingPosition"@
    } else {
        pascal_words(split_underscore(name), 0)
    }
}

/// The pieces of `s` split at underscores, without empties.
pub open spec fn split_underscore(s: Seq<char>) -> Seq<Seq<char>>
    decreases s.len(),
    via split_underscore_decreases
{
    if s.len() == 0 {
        Seq::empty()
    } else if s[0] == '_' {
        split_underscore(s.skip(1))
    } else {
        match find_from(s, "_"@, 0) {
            Some(j) => seq![s.subrange(0, j)] + split_underscore(s.skip(j + 1)),
            None => seq![s],
        }
    }
}

#[via_fn]
proof fn split_underscore_decreases(s: Seq<char>) {
    if s.len() > 0 && s[0] != '_' && find_from(s, "_"@, 0) is Some {
        crate::text::lemma_find_from_some(s, "_"@, 0);
        reveal_strlit("_");
        let j = find_from(s, "_"@, 0)->Some_0;
        assert(s.subrange(j, j + 1)[0] == s[j]);
        if j == 0 {
            assert(s[0] == '_');
        }
    }
}

/// The words concatenated, each with its first character raised.
pub open spec fn pascal_words(ws: Seq<Seq<char>>, i: int) -> Seq<char>
    decreases ws.len() - i,
{
    if i < 0 || i >= ws.len() {
        Seq::empty()
    } else {
        let w = ws[i];
        (if w.len() == 0 {
            Seq::<char>::empty()
        } else {
            seq![crate::text::upper_char(w[0])] + w.skip(1)
        }) + pascal_words(ws, i + 1)
    }
}

fn split_underscore_in(v: &Vec<char>) -> (r: Vec<Vec<char>>)
    ensures
        r.deep_view() == split_underscore(v@),
    decreases v@.len(),
{
    let n = v.len();
    if n == 0 {
        let r: Vec<Vec<char>> = Vec::new();
        assert(r.deep_view() =~~= Seq::<Seq<char>>::empty());
        return r;
    }
    if v[0] == '_' {
        let tail = slice_of(v, 1, n);
        assert(tail@ =~= v@.skip(1));
        return split_underscore_in(&tail);
    }
    let us = chars_of("_");
    match find_in(v, &us, 0) {
        Some(j) => {
            proof {
                crate::text::lemma_find_from_some(v@, "_"@, 0);
                reveal_strlit("_");
            }
            let head = slice_of(v, 0, j);
            let tail = slice_of(v, j + 1, n);
            assert(tail@ =~= v@.skip(j + 1));
            let mut rest = split_underscore_in(&tail);
            rest.insert(0, head);
            proof {
                assert(rest.deep_view() =~~= seq![head@] + split_underscore(v@.skip(j + 1)));
            }
            rest
        },
        None => {
            let mut r: Vec<Vec<char>> = Vec::new();
            r.push(crate::text::clone_of(v));
            assert(r.deep_view() =~~= seq![v@]);
            r
        },
    }
}

/// Guesses the record type for an account name.
pub fn get_state_type(account_name: &str) -> (r: String)
    ensures
        r@ == spec_state_type(account_name@),
{
    let v = chars_of(account_name);
    if eq_str(&v, "pool") {
        return String::from_str("StablePool");
    }
    if eq_str(&v, "farm") || eq_str(&v, "farming_period") {
        return String::from_str("FarmingPeriod");
    }
    if eq_str(&v, "user_position") || eq_str(&v, "position") || eq_str(&v, "stake_position") {
        return String::from_str("UserFarmingPosition");
    }
    let words = split_underscore_in(&v);
    let nw = words.len();
    let mut out: Vec<char> = Vec::new();
    assert(out@ + pascal_words(words.deep_view(), 0) =~= pascal_words(words.deep_view(), 0));
    for i in 0..nw
        invariant
            nw == words@.len(),
            words.deep_view() == split_underscore(v@),
            pascal_words(words.deep_view(), 0) == out@ + pascal_words(
                words.deep_view(),
                i as int,
            ),
    {
        let ghost pre = out@;
        let w = &words[i];
        proof {
            assert(words.deep_view()[i as int] == words@[i as int].deep_view());
            assert(words@[i as int].deep_view() =~= words@[i as int]@);
        }
        if w.len() > 0 {
            out.push(crate::text::upper_char_x(w[0]));
            let wn = w.len();
            append_range(&mut out, w, 1, wn);
            assert(out@ =~= pre + (seq![crate::text::upper_char(w@[0])] + w@.skip(1)));
        }
        assert(out@ + pascal_words(words.deep_view(), i + 1) =~= pre + pascal_words(
            words.deep_view(),
            i as int,
        ));
    }
    assert(pascal_words(words.deep_view(), nw as int) =~= Seq::<char>::empty());
    assert(out@ + pascal_words(words.deep_view(), nw as int) =~= out@);
    string_of(&out)
}

/// The record field names recognized by the promotion passes.  This
/// allowlist, like the account-name patterns below, is a heuristic tied to
/// one program family — a known gap of the reference behavior, not a
/// general rule; resolving record types from declared type references would
/// generalize it.
pub open spec fn spec_state_fields() -> Seq<Seq<char>> {
    split_words(state_fields_text()@)
}

pub open spec fn state_fields_text() -> &'static str {
    "authority bags_mint pump_mint bags_vault pump_vault lp_mint bags_balance pump_balance lp_supply bump paused swap_fee_bps admin_fee_percent amplification pending_authority authority_transfer_time admin_fees_bags admin_fees_pump total_volume_bags total_volume_pump ramp_start_time ramp_stop_time initial_amplification target_amplification amp_commit_hash amp_commit_time bags_vault_bump pump_vault_bump lp_mint_bump total_staked accumulated_reward_per_share acc_reward_per_share last_update_time reward_per_second start_time end_time total_rewards distributed_rewards staked_amount reward_debt pending_rewards lp_staked owner pending_amp_commit pool reward_mint farming_period"
}

fn state_fields_table() -> (r: Vec<Vec<char>>)
    ensures
        r.deep_view() == spec_state_fields(),
{
    let v = chars_of(
        "authority bags_mint pump_mint bags_vault pump_vault lp_mint bags_balance pump_balance lp_supply bump paused swap_fee_bps admin_fee_percent amplification pending_authority authority_transfer_time admin_fees_bags admin_fees_pump total_volume_bags total_volume_pump ramp_start_time ramp_stop_time initial_amplification target_amplification amp_commit_hash amp_commit_time bags_vault_bump pump_vault_bump lp_mint_bump total_staked accumulated_reward_per_share acc_reward_per_share last_update_time reward_per_second start_time end_time total_rewards distributed_rewards staked_amount reward_debt pending_rewards lp_staked owner pending_amp_commit pool reward_mint farming_period",
    );
    crate::text::split_words_in(&v)
}

/// The narrower field list used when promoting accesses found next to a
/// loader-style load call.
pub open spec fn spec_access_fields() -> Seq<Seq<char>> {
    split_words(access_fields_text()@)
}

pub open spec fn access_fields_text() -> &'static str {
    "authority bags_mint pump_mint bags_vault pump_vault lp_mint bags_balance pump_balance lp_supply bump paused swap_fee_bps admin_fee_percent amplification initial_amp target_amp amp_ramp_start amp_ramp_end pending_authority authority_transfer_time amp_commit_hash amp_commit_time admin_fees_bags admin_fees_pump bags_vault_bump pump_vault_bump lp_mint_bump total_volume_bags total_volume_pump total_staked accumulated_reward_per_share last_update_time reward_per_second start_time end_time total_rewards distributed_rewards staked_amount reward_debt pending_rewards"
}

fn access_fields_table() -> (r: Vec<Vec<char>>)
    ensures
        r.deep_view() == spec_access_fields(),
{
    let v = chars_of(
        "authority bags_mint pump_mint bags_vault pump_vault lp_mint bags_balance pump_balance lp_supply bump paused swap_fee_bps admin_fee_percent amplification initial_amp target_amp amp_ramp_start amp_ramp_end pending_authority authority_transfer_time amp_commit_hash amp_commit_time admin_fees_bags admin_fees_pump bags_vault_bump pump_vault_bump lp_mint_bump total_volume_bags total_volume_pump total_staked accumulated_reward_per_share last_update_time reward_per_second start_time end_time total_rewards distributed_rewards staked_amount reward_debt pending_rewards",
    );
    crate::text::split_words_in(&v)
}

/// Some recognized record field of the account is read or written in the
/// body.
pub open spec fn spec_any_field_access(
    s: Seq<char>,
    acc: Seq<char>,
    table: Seq<Seq<char>>,
    i: int,
) -> bool
    decreases table.len() - i,
{
    if i < 0 || i >= table.len() {
        false
    } else {
        contains_seq(s, acc + "."@ + table[i]) || spec_any_field_access(s, acc, table, i + 1)
    }
}

/// Whether the body reads or writes a recognized record field of the
/// account.
pub fn has_state_field_access(body: &str, acc_name: &str) -> (r: bool)
    ensures
        r == spec_any_field_access(body@, acc_name@, spec_state_fields(), 0),
{
    let b = chars_of(body);
    let a = chars_of(acc_name);
    let table = state_fields_table();
    let n = table.len();
    for i in 0..n
        invariant
            n == table@.len(),
            b@ == body@,
            a@ == acc_name@,
            table.deep_view() == spec_state_fields(),
            spec_any_field_access(body@, acc_name@, spec_state_fields(), 0)
                == spec_any_field_access(body@, acc_name@, spec_state_fields(), i as int),
    {
        let mut pat = crate::text::clone_of(&a);
        append_str(&mut pat, ".");
        append_all(&mut pat, &table[i]);
        proof {
            assert(table.deep_view()[i as int] == table@[i as int].deep_view());
            assert(table@[i as int].deep_view() =~= table@[i as int]@);
        }
        if contains_in(&b, &pat) {
            return true;
        }
    }
    false
}

/// The field accesses of one account rewritten to go through its
/// deserialized handle, for the fields from `i` on.
pub open spec fn spec_rename_fields(
    s: Seq<char>,
    acc: Seq<char>,
    table: Seq<Seq<char>>,
    i: int,
) -> Seq<char>
    decreases table.len() - i,
{
    if i < 0 || i >= table.len() {
        s
    } else {
        spec_rename_fields(
            replace_seq(s, acc + "."@ + table[i], acc + "_state."@ + table[i]),
            acc,
            table,
            i + 1,
        )
    }
}

/// The trailing fix-ups after the field renames of one account: reference
/// arguments routed to the handle, and the account's key variable
/// dereferenced on assignment.
pub open spec fn spec_rename_extras(s: Seq<char>, acc: Seq<char>) -> Seq<char> {
    let t1 = replace_seq(s, "(& "@ + acc + ")"@, "(&"@ + acc + "_state)"@);
    let t2 = replace_seq(t1, "(&"@ + acc + ")"@, "(&"@ + acc + "_state)"@);
    let t3 = replace_seq(t2, " (& "@ + acc + ") "@, "(&"@ + acc + "_state) "@);
    let t4 = replace_seq(t3, "(& mut "@ + acc + ")"@, "(&mut "@ + acc + "_state)"@);
    let t5 = replace_seq(t4, "(&mut "@ + acc + ")"@, "(&mut "@ + acc + "_state)"@);
    let t6 = replace_seq(t5, " (& mut "@ + acc + ") "@, "(&mut "@ + acc + "_state) "@);
    let t7 = replace_seq(t6, ", & "@ + acc + ","@, ", &"@ + acc + "_state,"@);
    let t8 = replace_seq(t7, ", & "@ + acc + ")"@, ", &"@ + acc + "_state)"@);
    let t9 = replace_seq(t8, " ("@ + acc + ")"@, " (&"@ + acc + "_state)"@);
    let t10 = replace_seq(t9, "("@ + acc + ")"@, "(&"@ + acc + "_state)"@);
    let t11 = replace_seq(t10, "(& "@ + acc + ","@, "(&"@ + acc + "_state,"@);
    let kv = acc + "_key"@;
    if contains_seq(t11, kv) {
        let t12 = replace_seq(t11, "= "@ + kv + " ;"@, "= *"@ + kv + " ;"@);
        replace_seq(t12, "= "@ + kv + ";"@, "= *"@ + kv + ";"@)
    } else {
        t11
    }
}

/// The whole field promotion of one account.
pub open spec fn spec_replace_state_fields(s: Seq<char>, acc: Seq<char>) -> Seq<char> {
    spec_rename_extras(spec_rename_fields(s, acc, spec_state_fields(), 0), acc)
}

fn cat3(a: &Vec<char>, b: &str, c: &Vec<char>) -> (r: Vec<char>)
    ensures
        r@ == a@ + b@ + c@,
{
    let mut r = crate::text::clone_of(a);
    append_str(&mut r, b);
    append_all(&mut r, c);
    r
}

fn cat2s(a: &str, b: &Vec<char>, c: &str) -> (r: Vec<char>)
    ensures
        r@ == a@ + b@ + c@,
{
    let mut r = chars_of(a);
    append_all(&mut r, b);
    append_str(&mut r, c);
    r
}

/// Rewrites the recognized field accesses of one account to go through its
/// deserialized handle.
pub fn replace_state_fields(body: &str, acc_name: &str) -> (r: String)
    ensures
        r@ == spec_replace_state_fields(body@, acc_name@),
{
    let a = chars_of(acc_name);
    let table = state_fields_table();
    let n = table.len();
    let mut cur = chars_of(body);
    for i in 0..n
        invariant
            n == table@.len(),
            a@ == acc_name@,
            table.deep_view() == spec_state_fields(),
            spec_rename_fields(cur@, acc_name@, spec_state_fields(), i as int)
                == spec_rename_fields(body@, acc_name@, spec_state_fields(), 0),
    {
        proof {
            assert(table.deep_view()[i as int] == table@[i as int].deep_view());
            assert(table@[i as int].deep_view() =~= table@[i as int]@);
        }
        let pat = cat3(&a, ".", &table[i]);
        let rep = cat3(&a, "_state.", &table[i]);
        cur = replace_in(&cur, &pat, &rep);
    }
    // Reference-argument fix-ups.
    let p1 = cat2s("(& ", &a, ")");
    let r1 = cat2s("(&", &a, "_state)");
    cur = replace_in(&cur, &p1, &r1);
    let p2 = cat2s("(&", &a, ")");
    cur = replace_in(&cur, &p2, &r1);
    let p3 = cat2s(" (& ", &a, ") ");
    let r3 = cat2s("(&", &a, "_state) ");
    cur = replace_in(&cur, &p3, &r3);
    let p4 = cat2s("(& mut ", &a, ")");
    let r4 = cat2s("(&mut ", &a, "_state)");
    cur = replace_in(&cur, &p4, &r4);
    let p5 = cat2s("(&mut ", &a, ")");
    cur = replace_in(&cur, &p5, &r4);
    let p6 = cat2s(" (& mut ", &a, ") ");
    let r6 = cat2s("(&mut ", &a, "_state) ");
    cur = replace_in(&cur, &p6, &r6);
    let p7 = cat2s(", & ", &a, ",");
    let r7 = cat2s(", &", &a, "_state,");
    cur = replace_in(&cur, &p7, &r7);
    let p8 = cat2s(", & ", &a, ")");
    let r8 = cat2s(", &", &a, "_state)");
    cur = replace_in(&cur, &p8, &r8);
    let p9 = cat2s(" (", &a, ")");
    let r9 = cat2s(" (&", &a, "_state)");
    cur = replace_in(&cur, &p9, &r9);
    let p10 = cat2s("(", &a, ")");
    let r10 = cat2s("(&", &a, "_state)");
    cur = replace_in(&cur, &p10, &r10);
    let p11 = cat2s("(& ", &a, ",");
    let r11 = cat2s("(&", &a, "_state,");
    cur = replace_in(&cur, &p11, &r11);
    let kv = cat3(&a, "_key", &Vec::new());
    assert(kv@ =~= acc_name@ + "_key"@);
    if contains_in(&cur, &kv) {
        let p12 = cat2s("= ", &kv, " ;");
        let r12 = cat2s("= *", &kv, " ;");
        cur = replace_in(&cur, &p12, &r12);
        let p13 = cat2s("= ", &kv, ";");
        let r13 = cat2s("= *", &kv, ";");
        cur = replace_in(&cur, &p13, &r13);
    }
    string_of(&cur)
}

/// One line assigns through the handle pattern: it holds the pattern and a
/// bare `=` after it that is neither `==` nor `!=`.
pub open spec fn spec_line_mutates(line: Seq<char>, pat: Seq<char>) -> bool {
    let t = crate::idl::trim_seq(line);
    &&& contains_seq(t, pat)
    &&& contains_seq(t, " = "@)
    &&& !contains_seq(t, " == "@)
    &&& !contains_seq(t, " != "@)
    &&& (match find_from(t, pat, 0) {
        Some(dot) => {
            let after = t.skip(dot + pat.len());
            match find_from(after, " = "@, 0) {
                Some(eq) => eq > 0 && !(after.len() > eq + 3 && after[eq + 3] == '='),
                None => false,
            }
        },
        None => false,
    })
}

/// Some line from `i` on assigns through the pattern.
pub open spec fn spec_lines_mutate(ls: Seq<Seq<char>>, pat: Seq<char>, i: int) -> bool
    decreases ls.len() - i,
{
    if i < 0 || i >= ls.len() {
        false
    } else {
        spec_line_mutates(ls[i], pat) || spec_lines_mutate(ls, pat, i + 1)
    }
}

/// The state bound to `sv` is assigned somewhere in the body: a field
/// assignment on some line, or a mutable borrow of it.
pub open spec fn spec_is_state_mutated(body: Seq<char>, sv: Seq<char>) -> bool {
    ||| spec_lines_mutate(crate::text::split_nl(body), sv + "."@, 0)
    ||| contains_seq(body, "&mut "@ + sv)
    ||| contains_seq(body, "& mut "@ + sv)
}

fn line_mutates(line: &Vec<char>, pat: &Vec<char>) -> (r: bool)
    ensures
        r == spec_line_mutates(line@, pat@),
{
    let t = crate::idl::trim_in(line);
    let eqp = chars_of(" = ");
    let eqeq = chars_of(" == ");
    let neq = chars_of(" != ");
    if !contains_in(&t, pat) {
        return false;
    }
    if !contains_in(&t, &eqp) {
        return false;
    }
    if contains_in(&t, &eqeq) {
        return false;
    }
    if contains_in(&t, &neq) {
        return false;
    }
    match find_in(&t, pat, 0) {
        Some(dot) => {
            proof {
                crate::text::lemma_find_from_some(t@, pat@, 0);
            }
            let tn = t.len();
            let after = slice_of(&t, dot + pat.len(), tn);
            assert(after@ =~= t@.skip(dot + pat@.len()));
            match find_in(&after, &eqp, 0) {
                Some(eq) => {
                    proof {
                        crate::text::lemma_find_from_some(after@, " = "@, 0);
                        reveal_strlit(" = ");
                    }
                    eq > 0 && !(after.len() > eq + 3 && after[eq + 3] == '=')
                },
                None => false,
            }
        },
        None => false,
    }
}

/// Whether the state bound to `state_var` is assigned in the body.
pub fn is_state_mutated(body: &str, state_var: &str) -> (r: bool)
    ensures
        r == spec_is_state_mutated(body@, state_var@),
{
    let b = chars_of(body);
    let mut pat = chars_of(state_var);
    append_str(&mut pat, ".");
    let lines = crate::text::split_nl_in(&b);
    let n = lines.len();
    for i in 0..n
        invariant
            n == lines@.len(),
            b@ == body@,
            pat@ == state_var@ + "."@,
            lines.deep_view() == crate::text::split_nl(body@),
            spec_lines_mutate(crate::text::split_nl(body@), state_var@ + "."@, 0)
                == spec_lines_mutate(crate::text::split_nl(body@), state_var@ + "."@, i as int),
    {
        proof {
            assert(lines.deep_view()[i as int] == lines@[i as int].deep_view());
            assert(lines@[i as int].deep_view() =~= lines@[i as int]@);
        }
        if line_mutates(&lines[i], &pat) {
            return true;
        }
    }
    let mut m1 = chars_of("&mut ");
    append_str(&mut m1, state_var);
    let mut m2 = chars_of("& mut ");
    append_str(&mut m2, state_var);
    contains_in(&b, &m1) || contains_in(&b, &m2)
}

/// The loader-style load calls of the accounts from `i` on, rewritten to
/// explicit deserialization statements.
pub open spec fn spec_load_replaces(s: Seq<char>, names: Seq<Seq<char>>, i: int) -> Seq<char>
    decreases names.len() - i,
{
    if i < 0 || i >= names.len() {
        s
    } else {
        let name = names[i];
        let ty = spec_state_type(name);
        let s1 = replace_seq(
            s,
            name + ".load_mut()?"@,
            "// Access "@ + name + " as mutable\n    "@
                + crate::cpi_helpers::spec_state_deserialize_write(ty, name, false),
        );
        let s2 = replace_seq(
            s1,
            name + ".load()?"@,
            "// Access "@ + name + " as readonly\n    "@
                + crate::cpi_helpers::spec_state_deserialize_read(ty, name),
        );
        spec_load_replaces(s2, names, i + 1)
    }
}

/// The field accesses of one account, spaced or compact, routed through the
/// handle, for the narrower access table from `i` on.
pub open spec fn spec_rename_access_fields(
    s: Seq<char>,
    acc: Seq<char>,
    table: Seq<Seq<char>>,
    i: int,
) -> Seq<char>
    decreases table.len() - i,
{
    if i < 0 || i >= table.len() {
        s
    } else {
        let s1 = replace_seq(s, acc + ". "@ + table[i], acc + "_state."@ + table[i]);
        let s2 = replace_seq(s1, acc + "."@ + table[i], acc + "_state."@ + table[i]);
        spec_rename_access_fields(s2, acc, table, i + 1)
    }
}

fn rename_access_fields(cur: &Vec<char>, acc: &Vec<char>) -> (r: Vec<char>)
    ensures
        r@ == spec_rename_access_fields(cur@, acc@, spec_access_fields(), 0),
{
    let table = access_fields_table();
    let n = table.len();
    let mut out = crate::text::clone_of(cur);
    for i in 0..n
        invariant
            n == table@.len(),
            table.deep_view() == spec_access_fields(),
            spec_rename_access_fields(out@, acc@, spec_access_fields(), i as int)
                == spec_rename_access_fields(cur@, acc@, spec_access_fields(), 0),
    {
        proof {
            assert(table.deep_view()[i as int] == table@[i as int].deep_view());
            assert(table@[i as int].deep_view() =~= table@[i as int]@);
        }
        let pat1 = cat3(acc, ". ", &table[i]);
        let rep = cat3(acc, "_state.", &table[i]);
        out = replace_in(&out, &pat1, &rep);
        let pat2 = cat3(acc, ".", &table[i]);
        out = replace_in(&out, &pat2, &rep);
    }
    out
}

/// The pieces joined with a line break and four spaces between each pair.
pub open spec fn join_indent(ls: Seq<Seq<char>>, i: int) -> Seq<char>
    decreases ls.len() - i,
{
    if i < 0 || i >= ls.len() {
        Seq::empty()
    } else if i == ls.len() - 1 {
        ls[i]
    } else {
        ls[i] + "\n    "@ + join_indent(ls, i + 1)
    }
}

/// One step of collecting deserializations for the known state accounts:
/// returns the rewritten body and the statements to insert, for the
/// patterns from `i` on.  Index 0..3 stand for the pool, farming-period,
/// user-position and stake-position accounts — a name-to-record allowlist
/// carried over as a known gap of the reference behavior.
pub open spec fn spec_pattern_name(i: int) -> Seq<char> {
    if i == 0 {
        "pool"@
    } else if i == 1 {
        "farming_period"@
    } else if i == 2 {
        "user_position"@
    } else {
        "stake_position"@
    }
}

/// The record type of the known state-account pattern `i`.
pub open spec fn spec_pattern_type(i: int) -> Seq<char> {
    if i == 0 {
        "StablePool"@
    } else if i == 1 {
        "FarmingPeriod"@
    } else {
        "UserFarmingPosition"@
    }
}

/// Collects mutable deserialization statements for every known state
/// account whose fields the body touches and that has no handle yet, and
/// routes those accesses through the handle.
pub open spec fn spec_collect_deser(s: Seq<char>, i: int) -> (Seq<char>, Seq<Seq<char>>)
    decreases 4 - i,
{
    if i < 0 || i >= 4 {
        (s, Seq::empty())
    } else {
        let acc = spec_pattern_name(i);
        let ty = spec_pattern_type(i);
        if contains_seq(s, acc + "."@) && !contains_seq(s, acc + "_state"@) {
            let code = "let "@ + acc + "_state = "@ + ty + "::from_account_info_mut("@ + acc
                + ")?;"@;
            let s2 = spec_rename_access_fields(s, acc, spec_access_fields(), 0);
            let rest = spec_collect_deser(s2, i + 1);
            (rest.0, seq![code] + rest.1)
        } else {
            spec_collect_deser(s, i + 1)
        }
    }
}

/// The state-access pass next to loader-style load calls: loads become
/// explicit deserialization statements, touched state accounts get a
/// deserialize-at-entry block, and their field accesses go through the
/// handles.
pub open spec fn spec_transform_state_access(s: Seq<char>, names: Seq<Seq<char>>) -> Seq<char> {
    let s1 = spec_load_replaces(s, names, 0);
    let r = spec_collect_deser(s1, 0);
    if r.1.len() > 0 {
        "// Deserialize state accounts\n    "@ + join_indent(r.1, 0) + "\n\n    "@ + r.0
    } else {
        r.0
    }
}

fn pattern_name(i: usize) -> (r: &'static str)
    requires
        i < 4,
    ensures
        r@ == spec_pattern_name(i as int),
{
    if i == 0 {
        "pool"
    } else if i == 1 {
        "farming_period"
    } else if i == 2 {
        "user_position"
    } else {
        "stake_position"
    }
}

fn pattern_type(i: usize) -> (r: &'static str)
    requires
        i < 4,
    ensures
        r@ == spec_pattern_type(i as int),
{
    if i == 0 {
        "StablePool"
    } else if i == 1 {
        "FarmingPeriod"
    } else {
        "UserFarmingPosition"
    }
}

fn collect_deser(s: &Vec<char>, i: usize) -> (r: (Vec<char>, Vec<Vec<char>>))
    requires
        i <= 4,
    ensures
        r.0@ == spec_collect_deser(s@, i as int).0,
        r.1.deep_view() == spec_collect_deser(s@, i as int).1,
    decreases 4 - i,
{
    if i >= 4 {
        let out: Vec<Vec<char>> = Vec::new();
        assert(out.deep_view() =~~= Seq::<Seq<char>>::empty());
        return (crate::text::clone_of(s), out);
    }
    let acc = chars_of(pattern_name(i));
    let mut dotp = crate::text::clone_of(&acc);
    append_str(&mut dotp, ".");
    let mut statep = crate::text::clone_of(&acc);
    append_str(&mut statep, "_state");
    if contains_in(s, &dotp) && !contains_in(s, &statep) {
        let mut code = chars_of("let ");
        append_all(&mut code, &acc);
        append_str(&mut code, "_state = ");
        append_str(&mut code, pattern_type(i));
        append_str(&mut code, "::from_account_info_mut(");
        append_all(&mut code, &acc);
        append_str(&mut code, ")?;");
        let s2 = rename_access_fields(s, &acc);
        let rest = collect_deser(&s2, i + 1);
        let mut lines = rest.1;
        lines.insert(0, code);
        proof {
            assert(lines.deep_view() =~~= seq![code@] + spec_collect_deser(s2@, i + 1).1);
        }
        (rest.0, lines)
    } else {
        collect_deser(s, i + 1)
    }
}

fn join_indent_in(ls: &Vec<Vec<char>>) -> (r: Vec<char>)
    ensures
        r@ == join_indent(ls.deep_view(), 0),
{
    let n = ls.len();
    let mut out: Vec<char> = Vec::new();
    if n == 0 {
        return out;
    }
    for i in 0..n
        invariant
            n == ls@.len(),
            n >= 1,
            i < n ==> out@ + join_indent(ls.deep_view(), i as int) == join_indent(
                ls.deep_view(),
                0,
            ),
            i == n ==> out@ == join_indent(ls.deep_view(), 0),
    {
        let ghost pre = out@;
        append_all(&mut out, &ls[i]);
        proof {
            assert(ls.deep_view()[i as int] == ls@[i as int].deep_view());
            assert(ls@[i as int].deep_view() =~= ls@[i as int]@);
        }
        if i + 1 < n {
            append_str(&mut out, "\n    ");
            assert(out@ + join_indent(ls.deep_view(), i + 1) =~= pre + join_indent(
                ls.deep_view(),
                i as int,
            ));
        } else {
            assert(out@ =~= pre + join_indent(ls.deep_view(), i as int));
        }
    }
    out
}

fn transform_state_access(cur: &Vec<char>, names: &Vec<Vec<char>>) -> (r: Vec<char>)
    ensures
        r@ == spec_transform_state_access(cur@, names.deep_view()),
{
    let n = names.len();
    let mut out = crate::text::clone_of(cur);
    for i in 0..n
        invariant
            n == names@.len(),
            spec_load_replaces(out@, names.deep_view(), i as int) == spec_load_replaces(
                cur@,
                names.deep_view(),
                0,
            ),
    {
        proof {
            assert(names.deep_view()[i as int] == names@[i as int].deep_view());
            assert(names@[i as int].deep_view() =~= names@[i as int]@);
        }
        let name = &names[i];
        let ty = get_state_type(string_of(name).as_str());
        let pat1 = cat3(name, ".load_mut()?", &Vec::new());
        assert(pat1@ =~= names.deep_view()[i as int] + ".load_mut()?"@);
        let mut rep1 = chars_of("// Access ");
        append_all(&mut rep1, name);
        append_str(&mut rep1, " as mutable\n    ");
        let dw = crate::cpi_helpers::state_deserialize_write(
            ty.as_str(),
            string_of(name).as_str(),
            false,
        );
        append_str(&mut rep1, dw.as_str());
        out = replace_in(&out, &pat1, &rep1);
        let pat2 = cat3(name, ".load()?", &Vec::new());
        assert(pat2@ =~= names.deep_view()[i as int] + ".load()?"@);
        let mut rep2 = chars_of("// Access ");
        append_all(&mut rep2, name);
        append_str(&mut rep2, " as readonly\n    ");
        let dr = crate::cpi_helpers::state_deserialize_read(
            ty.as_str(),
            string_of(name).as_str(),
        );
        append_str(&mut rep2, dr.as_str());
        out = replace_in(&out, &pat2, &rep2);
    }
    let collected = collect_deser(&out, 0);
    if collected.1.len() > 0 {
        let mut block = chars_of("// Deserialize state accounts\n    ");
        let joined = join_indent_in(&collected.1);
        append_all(&mut block, &joined);
        append_str(&mut block, "\n\n    ");
        append_all(&mut block, &collected.0);
        block
    } else {
        collected.0
    }
}

/// One line with the period and position aliases pointed back at their
/// accounts.
pub open spec fn spec_alias_line(l: Seq<char>) -> Seq<char> {
    let l1 = if contains_seq(l, "period."@) && !contains_seq(l, "farming_period."@) {
        replace_seq(l, "period."@, "farming_period."@)
    } else {
        l
    };
    if contains_seq(l1, "position."@) && !contains_seq(l1, "user_position."@) {
        replace_seq(l1, "position."@, "user_position."@)
    } else {
        l1
    }
}

/// Every line alias-fixed, from `i` on.
pub open spec fn spec_alias_lines(ls: Seq<Seq<char>>, i: int) -> Seq<Seq<char>>
    decreases ls.len() - i,
{
    if i < 0 || i >= ls.len() {
        Seq::empty()
    } else {
        seq![spec_alias_line(ls[i])] + spec_alias_lines(ls, i + 1)
    }
}

/// Which of the four known state accounts the body needs a handle for.
pub open spec fn spec_needs_deser(s: Seq<char>, i: int) -> bool {
    contains_seq(s, spec_pattern_name(i) + "."@) && spec_any_field_access(
        s,
        spec_pattern_name(i),
        spec_state_fields(),
        0,
    )
}

/// The field promotions applied for every needed account from `i` on.
pub open spec fn spec_apply_needed(s: Seq<char>, needs: Seq<bool>, i: int) -> Seq<char>
    decreases 4 - i,
{
    if i < 0 || i >= 4 {
        s
    } else if needs[i] {
        spec_apply_needed(spec_replace_state_fields(s, spec_pattern_name(i)), needs, i + 1)
    } else {
        spec_apply_needed(s, needs, i + 1)
    }
}

/// The deserialize-at-entry statement for one needed account: the mutable
/// deserializer, with a `mut` binding, when the promoted body assigns
/// through the account's handle; the read-only deserializer otherwise.
pub open spec fn spec_deser_line(c: Seq<char>, i: int) -> Seq<char> {
    let acc = spec_pattern_name(i);
    if spec_is_state_mutated(c, acc + "_state"@) {
        crate::cpi_helpers::spec_state_deserialize_write(spec_pattern_type(i), acc, true)
    } else {
        crate::cpi_helpers::spec_state_deserialize_read(spec_pattern_type(i), acc)
    }
}

/// The deserialize-at-entry statements for every needed account from `i`
/// on.
pub open spec fn spec_deser_lines(c: Seq<char>, needs: Seq<bool>, i: int) -> Seq<Seq<char>>
    decreases 4 - i,
{
    if i < 0 || i >= 4 {
        Seq::empty()
    } else if needs[i] {
        seq![spec_deser_line(c, i)] + spec_deser_lines(c, needs, i + 1)
    } else {
        spec_deser_lines(c, needs, i + 1)
    }
}

/// The final state promotion pass: alias fixes line by line, handle
/// promotion for every known state account whose fields the body touches,
/// and a deserialize-at-entry block in front.  Very short bodies pass
/// through unchanged.
pub open spec fn spec_state_access_final(s: Seq<char>) -> Seq<char> {
    if s.len() < 20 {
        s
    } else {
        let a1 = replace_seq(s, "let period = & mut farming_period ;"@, ""@);
        let a2 = replace_seq(a1, "let period = &mut farming_period;"@, ""@);
        let a3 = replace_seq(a2, "let position = & mut user_position ;"@, ""@);
        let a4 = replace_seq(a3, "let position = &mut user_position;"@, ""@);
        let a5 = replace_seq(a4, "let pool = & mut pool ;"@, ""@);
        let a6 = replace_seq(a5, "let pool = &mut pool;"@, ""@);
        let b = crate::text::join_nl(spec_alias_lines(crate::text::split_nl(a6), 0), 0);
        let needs = seq![
            spec_needs_deser(b, 0),
            spec_needs_deser(b, 1),
            spec_needs_deser(b, 2),
            spec_needs_deser(b, 3),
        ];
        let c = spec_apply_needed(b, needs, 0);
        let lines = spec_deser_lines(c, needs, 0);
        if lines.len() > 0 {
            "// Deserialize state accounts\n"@ + crate::text::join_nl(lines, 0) + "\n\n"@ + c
        } else {
            c
        }
    }
}

fn alias_line(l: &Vec<char>) -> (r: Vec<char>)
    ensures
        r@ == spec_alias_line(l@),
{
    let pp = chars_of("period.");
    let fp = chars_of("farming_period.");
    let pos = chars_of("position.");
    let up = chars_of("user_position.");
    let l1 = if contains_in(l, &pp) && !contains_in(l, &fp) {
        replace_in(l, &pp, &fp)
    } else {
        crate::text::clone_of(l)
    };
    if contains_in(&l1, &pos) && !contains_in(&l1, &up) {
        replace_in(&l1, &pos, &up)
    } else {
        l1
    }
}

/// The final state promotion pass over one body.
#[verifier::rlimit(50)]
pub fn transform_state_access_final(body: &str) -> (r: String)
    ensures
        r@ == spec_state_access_final(body@),
{
    let v = chars_of(body);
    if v.len() < 20 {
        return string_of(&v);
    }
    let mut cur = replace_str(&v, "let period = & mut farming_period ;", "");
    cur = replace_str(&cur, "let period = &mut farming_period;", "");
    cur = replace_str(&cur, "let position = & mut user_position ;", "");
    cur = replace_str(&cur, "let position = &mut user_position;", "");
    cur = replace_str(&cur, "let pool = & mut pool ;", "");
    cur = replace_str(&cur, "let pool = &mut pool;", "");
    let lines = crate::text::split_nl_in(&cur);
    let nl = lines.len();
    let mut fixed: Vec<Vec<char>> = Vec::new();
    assert(fixed.deep_view() =~~= Seq::<Seq<char>>::empty());
    proof {
        lemma_alias_lines_len(crate::text::split_nl(cur@), 0);
        assert(spec_alias_lines(crate::text::split_nl(cur@), 0).subrange(0, 0)
            =~~= Seq::<Seq<char>>::empty());
    }
    for i in 0..nl
        invariant
            nl == lines@.len(),
            lines.deep_view() == crate::text::split_nl(cur@),
            fixed@.len() == i,
            forall|m: int|
                0 <= m < i ==> (#[trigger] fixed@[m])@ == spec_alias_lines(
                    crate::text::split_nl(cur@),
                    0,
                )[m],
            spec_alias_lines(crate::text::split_nl(cur@), 0).len() == nl,
    {
        proof {
            assert(lines.deep_view()[i as int] == lines@[i as int].deep_view());
            assert(lines@[i as int].deep_view() =~= lines@[i as int]@);
            lemma_alias_lines_index(crate::text::split_nl(cur@), i as int);
        }
        let el = alias_line(&lines[i]);
        proof {
            assert(lines@[i as int]@ == crate::text::split_nl(cur@)[i as int]);
            assert(el@ == spec_alias_lines(crate::text::split_nl(cur@), 0)[i as int]);
        }
        fixed.push(el);
    }
    proof {
        let al = spec_alias_lines(crate::text::split_nl(cur@), 0);
        assert forall|m: int| 0 <= m < fixed@.len() implies #[trigger] fixed.deep_view()[m]
            == al[m] by {
            assert(fixed.deep_view()[m] == fixed@[m].deep_view());
            assert(fixed@[m].deep_view() =~= fixed@[m]@);
        }
        assert(fixed.deep_view().len() == al.len());
        assert(fixed.deep_view() =~= al);
    }
    let b = crate::text::join_nl_in(&fixed);
    let mut needs: Vec<bool> = Vec::new();
    for i in 0..4usize
        invariant
            needs@.len() == i,
            forall|m: int| 0 <= m < i ==> needs@[m] == spec_needs_deser(b@, m),
    {
        let acc = pattern_name(i);
        let mut dotp = chars_of(acc);
        append_str(&mut dotp, ".");
        let has_dot = contains_in(&b, &dotp);
        let has_field = has_state_field_access(string_of(&b).as_str(), acc);
        needs.push(has_dot && has_field);
    }
    let ghost needs_g = seq![
        spec_needs_deser(b@, 0),
        spec_needs_deser(b@, 1),
        spec_needs_deser(b@, 2),
        spec_needs_deser(b@, 3),
    ];
    assert(needs@ =~= needs_g);
    assert(needs@.len() == 4);
    let mut c = crate::text::clone_of(&b);
    for i in 0..4usize
        invariant
            needs@ == needs_g,
            needs@.len() == 4,
            spec_apply_needed(c@, needs_g, i as int) == spec_apply_needed(b@, needs_g, 0),
    {
        if needs[i] {
            let rep = replace_state_fields(string_of(&c).as_str(), pattern_name(i));
            c = chars_of(rep.as_str());
        }
    }
    let mut lines_out: Vec<Vec<char>> = Vec::new();
    assert(lines_out.deep_view() =~~= Seq::<Seq<char>>::empty());
    for i in 0..4usize
        invariant
            needs@ == needs_g,
            needs@.len() == 4,
            c@ == spec_apply_needed(b@, needs_g, 0),
            lines_out.deep_view() =~~= spec_deser_lines_prefix(c@, needs_g, i as int),
    {
        proof {
            lemma_deser_lines_prefix_step(c@, needs_g, i as int);
        }
        if needs[i] {
            let acc = pattern_name(i);
            let line = if is_state_mutated_state(string_of(&c).as_str(), acc) {
                crate::cpi_helpers::state_deserialize_write(pattern_type(i), acc, true)
            } else {
                crate::cpi_helpers::state_deserialize_read(pattern_type(i), acc)
            };
            lines_out.push(chars_of(line.as_str()));
        }
        assert(lines_out.deep_view() =~~= spec_deser_lines_prefix(c@, needs_g, i + 1));
    }
    proof {
        lemma_deser_prefix_total(c@, needs_g, 0);
        assert(spec_deser_lines_prefix(c@, needs_g, 0) =~~= Seq::<Seq<char>>::empty());
    }
    assert(lines_out.deep_view() =~~= spec_deser_lines(c@, needs_g, 0));
    if lines_out.len() > 0 {
        let mut out = chars_of("// Deserialize state accounts\n");
        let joined = crate::text::join_nl_in(&lines_out);
        append_all(&mut out, &joined);
        append_str(&mut out, "\n\n");
        append_all(&mut out, &c);
        string_of(&out)
    } else {
        string_of(&c)
    }
}

/// The deserialize statements collected for the needed accounts before `i`.
pub open spec fn spec_deser_lines_prefix(c: Seq<char>, needs: Seq<bool>, i: int) -> Seq<Seq<char>>
    decreases i,
{
    if i <= 0 {
        Seq::empty()
    } else if needs[i - 1] {
        spec_deser_lines_prefix(c, needs, i - 1) + seq![spec_deser_line(c, i - 1)]
    } else {
        spec_deser_lines_prefix(c, needs, i - 1)
    }
}

proof fn lemma_deser_lines_prefix_step(c: Seq<char>, needs: Seq<bool>, i: int)
    requires
        0 <= i < 4,
    ensures
        spec_deser_lines_prefix(c, needs, i + 1) == spec_deser_lines_prefix(c, needs, i) + (
        if needs[i] {
            seq![spec_deser_line(c, i)]
        } else {
            Seq::<Seq<char>>::empty()
        }),
{
    if !needs[i] {
        assert(spec_deser_lines_prefix(c, needs, i + 1) =~= spec_deser_lines_prefix(c, needs, i)
            + Seq::<Seq<char>>::empty());
    }
}

proof fn lemma_deser_prefix_total(c: Seq<char>, needs: Seq<bool>, i: int)
    requires
        0 <= i <= 4,
    ensures
        spec_deser_lines_prefix(c, needs, 4) == spec_deser_lines_prefix(c, needs, i)
            + spec_deser_lines(c, needs, i),
    decreases 4 - i,
{
    if i < 4 {
        lemma_deser_prefix_total(c, needs, i + 1);
        lemma_deser_lines_prefix_step(c, needs, i);
        if needs[i] {
            assert(spec_deser_lines_prefix(c, needs, i) + spec_deser_lines(c, needs, i)
                =~= spec_deser_lines_prefix(c, needs, i + 1) + spec_deser_lines(c, needs, i + 1));
        } else {
            assert(spec_deser_lines(c, needs, i) == spec_deser_lines(c, needs, i + 1));
        }
    } else {
        assert(spec_deser_lines(c, needs, 4) =~= Seq::<Seq<char>>::empty());
        assert(spec_deser_lines_prefix(c, needs, 4) + spec_deser_lines(c, needs, 4)
            =~= spec_deser_lines_prefix(c, needs, 4));
    }
}

proof fn lemma_alias_lines_index(ls: Seq<Seq<char>>, i: int)
    requires
        0 <= i < ls.len(),
    ensures
        spec_alias_lines(ls, 0).len() == ls.len(),
        spec_alias_lines(ls, 0)[i] == spec_alias_line(ls[i]),
{
    lemma_alias_lines_len(ls, 0);
    lemma_alias_lines_at(ls, 0, i);
}

proof fn lemma_alias_lines_len(ls: Seq<Seq<char>>, i: int)
    requires
        0 <= i <= ls.len(),
    ensures
        spec_alias_lines(ls, i).len() == ls.len() - i,
    decreases ls.len() - i,
{
    if i < ls.len() {
        lemma_alias_lines_len(ls, i + 1);
    }
}

proof fn lemma_alias_lines_at(ls: Seq<Seq<char>>, i: int, m: int)
    requires
        0 <= i <= m < ls.len(),
    ensures
        spec_alias_lines(ls, i)[m - i] == spec_alias_line(ls[m]),
    decreases ls.len() - i,
{
    lemma_alias_lines_len(ls, i);
    if i < m {
        lemma_alias_lines_at(ls, i + 1, m);
        lemma_alias_lines_len(ls, i + 1);
    }
}

/// Whether the promoted handle of `acc` is assigned in the body.
fn is_state_mutated_state(body: &str, acc: &str) -> (r: bool)
    ensures
        r == spec_is_state_mutated(body@, acc@ + "_state"@),
{
    let mut sv = chars_of(acc);
    append_str(&mut sv, "_state");
    is_state_mutated(body, string_of(&sv).as_str())
}

/// Key-handle comparisons dereferenced: every `==`/`!=` right-hand side gets
/// a dereference, then literal and already-dereferenced cases are undone.
pub open spec fn spec_fix_pubkey_comparisons(s: Seq<char>) -> Seq<char> {
    let s1 = replace_seq(s, " == "@, " ==PLACEHOLDER== "@);
    let s2 = replace_seq(s1, " != "@, " !=PLACEHOLDER!= "@);
    let s3 = replace_seq(s2, "==PLACEHOLDER== "@, " == *"@);
    let s4 = replace_seq(s3, "!=PLACEHOLDER!= "@, " != *"@);
    let s5 = replace_seq(s4, " == **"@, " == *"@);
    let s6 = replace_seq(s5, " != **"@, " != *"@);
    let s7 = replace_seq(s6, " == *Pubkey"@, " == Pubkey"@);
    let s8 = replace_seq(s7, " != *Pubkey"@, " != Pubkey"@);
    let s9 = replace_seq(s8, " == *0"@, " == 0"@);
    let s10 = replace_seq(s9, " == *false"@, " == false"@);
    replace_seq(s10, " == *true"@, " == true"@)
}

fn fix_pubkey_comparisons(v: &Vec<char>) -> (r: Vec<char>)
    ensures
        r@ == spec_fix_pubkey_comparisons(v@),
{
    let mut cur = replace_str(v, " == ", " ==PLACEHOLDER== ");
    cur = replace_str(&cur, " != ", " !=PLACEHOLDER!= ");
    cur = replace_str(&cur, "==PLACEHOLDER== ", " == *");
    cur = replace_str(&cur, "!=PLACEHOLDER!= ", " != *");
    cur = replace_str(&cur, " == **", " == *");
    cur = replace_str(&cur, " != **", " != *");
    cur = replace_str(&cur, " == *Pubkey", " == Pubkey");
    cur = replace_str(&cur, " != *Pubkey", " != Pubkey");
    cur = replace_str(&cur, " == *0", " == 0");
    cur = replace_str(&cur, " == *false", " == false");
    cur = replace_str(&cur, " == *true", " == true");
    cur
}

/// The key-typed record fields whose assignments need a dereference.
pub open spec fn spec_pubkey_fields() -> Seq<Seq<char>> {
    split_words(pubkey_fields_text()@)
}

pub open spec fn pubkey_fields_text() -> &'static str {
    "authority bags_mint pump_mint bags_vault pump_vault lp_mint pool reward_mint owner farming_period pending_authority"
}

/// Assignments of key fields dereferenced, for the fields from `i` on.
pub open spec fn spec_deref_assigns(s: Seq<char>, table: Seq<Seq<char>>, i: int) -> Seq<char>
    decreases table.len() - i,
{
    if i < 0 || i >= table.len() {
        s
    } else {
        let s1 = replace_seq(s, "_state."@ + table[i] + " = "@, "_state."@ + table[i] + " = *"@);
        let s2 = replace_seq(s1, "period."@ + table[i] + " = "@, "period."@ + table[i] + " = *"@);
        spec_deref_assigns(s2, table, i + 1)
    }
}

/// Key assignments and optional-key constructions dereferenced, and literal
/// cases undone.
pub open spec fn spec_fix_pubkey_assignments(s: Seq<char>) -> Seq<char> {
    let a = spec_deref_assigns(s, spec_pubkey_fields(), 0);
    let b1 = replace_seq(a, " = **"@, " = *"@);
    let b2 = replace_seq(b1, " = *Pubkey"@, " = Pubkey"@);
    let b3 = replace_seq(b2, " = *0"@, " = 0"@);
    let c1 = replace_seq(b3, "Some (new_authority) ;"@, "Some (*new_authority) ;"@);
    let c2 = replace_seq(c1, "Some (new_authority);"@, "Some (*new_authority);"@);
    let c3 = replace_seq(
        c2,
        "new_authority != Pubkey::default"@,
        "*new_authority != Pubkey::default"@,
    );
    let c4 = replace_seq(
        c3,
        "new_authority == Pubkey::default"@,
        "*new_authority == Pubkey::default"@,
    );
    let d1 = replace_seq(c4, "Some (pending_authority) ;"@, "Some (*pending_authority) ;"@);
    let d2 = replace_seq(d1, "Some (pending_authority);"@, "Some (*pending_authority);"@);
    let d3 = replace_seq(
        d2,
        "pending_authority != Pubkey::default"@,
        "*pending_authority != Pubkey::default"@,
    );
    replace_seq(
        d3,
        "pending_authority == Pubkey::default"@,
        "*pending_authority == Pubkey::default"@,
    )
}

fn fix_pubkey_assignments(v: &Vec<char>) -> (r: Vec<char>)
    ensures
        r@ == spec_fix_pubkey_assignments(v@),
{
    let tv = chars_of(
        "authority bags_mint pump_mint bags_vault pump_vault lp_mint pool reward_mint owner farming_period pending_authority",
    );
    let table = crate::text::split_words_in(&tv);
    proof {
        reveal_strlit(
            "authority bags_mint pump_mint bags_vault pump_vault lp_mint pool reward_mint owner farming_period pending_authority",
        );
    }
    assert(table.deep_view() == spec_pubkey_fields());
    let n = table.len();
    let mut cur = crate::text::clone_of(v);
    for i in 0..n
        invariant
            n == table@.len(),
            table.deep_view() == spec_pubkey_fields(),
            spec_deref_assigns(cur@, spec_pubkey_fields(), i as int) == spec_deref_assigns(
                v@,
                spec_pubkey_fields(),
                0,
            ),
    {
        proof {
            assert(table.deep_view()[i as int] == table@[i as int].deep_view());
            assert(table@[i as int].deep_view() =~= table@[i as int]@);
        }
        let p1 = cat2s("_state.", &table[i], " = ");
        let r1 = cat2s("_state.", &table[i], " = *");
        cur = replace_in(&cur, &p1, &r1);
        let p2 = cat2s("period.", &table[i], " = ");
        let r2 = cat2s("period.", &table[i], " = *");
        cur = replace_in(&cur, &p2, &r2);
    }
    cur = replace_str(&cur, " = **", " = *");
    cur = replace_str(&cur, " = *Pubkey", " = Pubkey");
    cur = replace_str(&cur, " = *0", " = 0");
    cur = replace_str(&cur, "Some (new_authority) ;", "Some (*new_authority) ;");
    cur = replace_str(&cur, "Some (new_authority);", "Some (*new_authority);");
    cur = replace_str(&cur, "new_authority != Pubkey::default", "*new_authority != Pubkey::default");
    cur = replace_str(&cur, "new_authority == Pubkey::default", "*new_authority == Pubkey::default");
    cur = replace_str(&cur, "Some (pending_authority) ;", "Some (*pending_authority) ;");
    cur = replace_str(&cur, "Some (pending_authority);", "Some (*pending_authority);");
    cur = replace_str(
        &cur,
        "pending_authority != Pubkey::default",
        "*pending_authority != Pubkey::default",
    );
    cur = replace_str(
        &cur,
        "pending_authority == Pubkey::default",
        "*pending_authority == Pubkey::default",
    );
    cur
}

/// The token-account names whose balance, mint and owner reads go through
/// accessor calls — a name allowlist carried over as a known gap of the
/// reference behavior.
pub open spec fn spec_token_accounts() -> Seq<Seq<char>> {
    split_words(token_accounts_text()@)
}

pub open spec fn token_accounts_text() -> &'static str {
    "bags_vault pump_vault user_bags user_pump user_lp farming_vault reward_vault staking_vault staked_lp_vault user_token user_reward_account admin_bags admin_pump"
}

/// Token-account field reads routed through the accessor helpers, for the
/// accounts from `i` on.
pub open spec fn spec_fix_token_access(s: Seq<char>, table: Seq<Seq<char>>, i: int) -> Seq<char>
    decreases table.len() - i,
{
    if i < 0 || i >= table.len() {
        s
    } else {
        let a = table[i];
        let s1 = replace_seq(s, a + ".amount"@, "get_token_balance("@ + a + ")?"@);
        let s2 = replace_seq(s1, a + ".mint"@, "get_token_mint("@ + a + ")?"@);
        let s3 = replace_seq(s2, a + ".owner"@, "get_token_owner("@ + a + ")?"@);
        spec_fix_token_access(s3, table, i + 1)
    }
}

fn fix_token_amount_access(v: &Vec<char>) -> (r: Vec<char>)
    ensures
        r@ == spec_fix_token_access(v@, spec_token_accounts(), 0),
{
    let tv = chars_of(
        "bags_vault pump_vault user_bags user_pump user_lp farming_vault reward_vault staking_vault staked_lp_vault user_token user_reward_account admin_bags admin_pump",
    );
    let table = crate::text::split_words_in(&tv);
    proof {
        reveal_strlit(
            "bags_vault pump_vault user_bags user_pump user_lp farming_vault reward_vault staking_vault staked_lp_vault user_token user_reward_account admin_bags admin_pump",
        );
    }
    assert(table.deep_view() == spec_token_accounts());
    let n = table.len();
    let mut cur = crate::text::clone_of(v);
    for i in 0..n
        invariant
            n == table@.len(),
            table.deep_view() == spec_token_accounts(),
            spec_fix_token_access(cur@, spec_token_accounts(), i as int) == spec_fix_token_access(
                v@,
                spec_token_accounts(),
                0,
            ),
    {
        proof {
            assert(table.deep_view()[i as int] == table@[i as int].deep_view());
            assert(table@[i as int].deep_view() =~= table@[i as int]@);
        }
        let a = &table[i];
        let p1 = cat3(a, ".amount", &Vec::new());
        assert(p1@ =~= table@[i as int]@ + ".amount"@);
        let r1 = cat2s("get_token_balance(", a, ")?");
        cur = replace_in(&cur, &p1, &r1);
        let p2 = cat3(a, ".mint", &Vec::new());
        assert(p2@ =~= table@[i as int]@ + ".mint"@);
        let r2 = cat2s("get_token_mint(", a, ")?");
        cur = replace_in(&cur, &p2, &r2);
        let p3 = cat3(a, ".owner", &Vec::new());
        assert(p3@ =~= table@[i as int]@ + ".owner"@);
        let r3 = cat2s("get_token_owner(", a, ")?");
        cur = replace_in(&cur, &p3, &r3);
    }
    cur
}

// ------------------------------------------------------------------
// Assertion and event macro lowering
// ------------------------------------------------------------------

/// Index of the parenthesis that closes the nesting opened so far, scanning
/// from `i` with the given open depth.
pub open spec fn spec_match_paren(t: Seq<char>, i: int, depth: int) -> Option<int>
    decreases t.len() - i,
{
    if i < 0 || i >= t.len() {
        None
    } else if t[i] == '(' {
        spec_match_paren(t, i + 1, depth + 1)
    } else if t[i] == ')' {
        if depth == 1 {
            Some(i)
        } else {
            spec_match_paren(t, i + 1, depth - 1)
        }
    } else {
        spec_match_paren(t, i + 1, depth)
    }
}

/// A found closing parenthesis lies at or after the scan start and inside
/// the text.
pub proof fn lemma_match_paren_bounds(t: Seq<char>, i: int, depth: int)
    requires
        spec_match_paren(t, i, depth) is Some,
    ensures
        i <= spec_match_paren(t, i, depth)->Some_0 < t.len(),
    decreases t.len() - i,
{
    if i < 0 || i >= t.len() {
    } else if t[i] == '(' {
        lemma_match_paren_bounds(t, i + 1, depth + 1);
    } else if t[i] == ')' {
        if depth != 1 {
            lemma_match_paren_bounds(t, i + 1, depth - 1);
        }
    } else {
        lemma_match_paren_bounds(t, i + 1, depth);
    }
}

/// Finds the parenthesis closing the first one of `t`.
pub fn find_matching_paren(t: &Vec<char>) -> (r: Option<usize>)
    ensures
        match r {
            Some(j) => spec_match_paren(t@, 0, 0) == Some(j as int),
            None => spec_match_paren(t@, 0, 0) is None,
        },
{
    let n = t.len();
    let mut i: usize = 0;
    let mut depth: i128 = 0;
    loop
        invariant
            i <= n,
            n == t@.len(),
            -(i as i128) <= depth <= i as i128,
            spec_match_paren(t@, 0, 0) == spec_match_paren(t@, i as int, depth as int),
        decreases n - i,
    {
        if i >= n {
            return None;
        }
        let c = t[i];
        if c == '(' {
            depth = depth + 1;
        } else if c == ')' {
            if depth == 1 {
                return Some(i);
            }
            depth = depth - 1;
        }
        i += 1;
    }
}

/// Index of the last comma of `t` outside every parenthesis, bracket and
/// brace, scanning from `i` at the given depth.
pub open spec fn spec_last_comma_from(t: Seq<char>, i: int, depth: int, last: Option<int>) -> Option<
    int,
>
    decreases t.len() - i,
{
    if i < 0 || i >= t.len() {
        last
    } else {
        let c = t[i];
        if c == '(' || c == '[' || c == '{' {
            spec_last_comma_from(t, i + 1, depth + 1, last)
        } else if c == ')' || c == ']' || c == '}' {
            spec_last_comma_from(t, i + 1, depth - 1, last)
        } else if c == ',' && depth == 0 {
            spec_last_comma_from(t, i + 1, depth, Some(i))
        } else {
            spec_last_comma_from(t, i + 1, depth, last)
        }
    }
}

/// The recorded comma index never exceeds the scan bounds.
pub proof fn lemma_last_comma_bounds(t: Seq<char>, i: int, depth: int, last: Option<int>)
    requires
        match last {
            Some(l) => 0 <= l < t.len(),
            None => true,
        },
        spec_last_comma_from(t, i, depth, last) is Some,
    ensures
        0 <= spec_last_comma_from(t, i, depth, last)->Some_0 < t.len(),
    decreases t.len() - i,
{
    if i < 0 || i >= t.len() {
    } else {
        let c = t[i];
        if c == '(' || c == '[' || c == '{' {
            lemma_last_comma_bounds(t, i + 1, depth + 1, last);
        } else if c == ')' || c == ']' || c == '}' {
            lemma_last_comma_bounds(t, i + 1, depth - 1, last);
        } else if c == ',' && depth == 0 {
            lemma_last_comma_bounds(t, i + 1, depth, Some(i));
        } else {
            lemma_last_comma_bounds(t, i + 1, depth, last);
        }
    }
}

/// Finds the last comma outside every bracket pair.
pub fn find_last_comma(t: &Vec<char>) -> (r: Option<usize>)
    ensures
        match r {
            Some(j) => spec_last_comma_from(t@, 0, 0, None) == Some(j as int),
            None => spec_last_comma_from(t@, 0, 0, None) is None,
        },
{
    let n = t.len();
    let mut i: usize = 0;
    let mut depth: i128 = 0;
    let mut last: Option<usize> = None;
    loop
        invariant
            i <= n,
            n == t@.len(),
            -(i as i128) <= depth <= i as i128,
            spec_last_comma_from(t@, 0, 0, None) == spec_last_comma_from(
                t@,
                i as int,
                depth as int,
                match last {
                    Some(l) => Some(l as int),
                    None => None,
                },
            ),
        decreases n - i,
    {
        if i >= n {
            return last;
        }
        let c = t[i];
        if c == '(' || c == '[' || c == '{' {
            depth = depth + 1;
        } else if c == ')' || c == ']' || c == '}' {
            depth = depth - 1;
        } else if c == ',' && depth == 0 {
            last = Some(i);
        }
        i += 1;
    }
}

/// `c` is a space or a tab.
pub open spec fn is_st(c: char) -> bool {
    c == ' ' || c == '\t'
}

/// `s` without its leading run of spaces and tabs.
pub open spec fn drop_st(s: Seq<char>) -> Seq<char>
    decreases s.len(),
{
    if s.len() > 0 && is_st(s[0]) {
        drop_st(s.skip(1))
    } else {
        s
    }
}

/// Dropping a leading run shortens the text when it starts with one.
pub proof fn lemma_drop_st_len(s: Seq<char>)
    ensures
        drop_st(s).len() <= s.len(),
        s.len() > 0 && is_st(s[0]) ==> drop_st(s).len() < s.len(),
    decreases s.len(),
{
    if s.len() > 0 && is_st(s[0]) {
        lemma_drop_st_len(s.skip(1));
    }
}

/// Every run of two or more spaces or tabs collapsed to one space; single
/// spaces and tabs stay as they are.
pub open spec fn spec_squeeze_ws(s: Seq<char>) -> Seq<char>
    decreases s.len(),
    via spec_squeeze_ws_decreases
{
    if s.len() == 0 {
        Seq::empty()
    } else if is_st(s[0]) && s.len() >= 2 && is_st(s[1]) {
        seq![' '] + spec_squeeze_ws(drop_st(s))
    } else {
        seq![s[0]] + spec_squeeze_ws(s.skip(1))
    }
}

#[via_fn]
proof fn spec_squeeze_ws_decreases(s: Seq<char>) {
    if s.len() > 0 && is_st(s[0]) {
        lemma_drop_st_len(s);
    }
}

fn drop_st_in(v: &Vec<char>) -> (r: Vec<char>)
    ensures
        r@ == drop_st(v@),
    decreases v@.len(),
{
    let n = v.len();
    if n > 0 && (v[0] == ' ' || v[0] == '\t') {
        let t = slice_of(v, 1, n);
        assert(t@ =~= v@.skip(1));
        drop_st_in(&t)
    } else {
        crate::text::clone_of(v)
    }
}

fn squeeze_ws_in(v: &Vec<char>) -> (r: Vec<char>)
    ensures
        r@ == spec_squeeze_ws(v@),
    decreases v@.len(),
{
    let n = v.len();
    if n == 0 {
        let r: Vec<char> = Vec::new();
        assert(r@ =~= Seq::<char>::empty());
        return r;
    }
    if (v[0] == ' ' || v[0] == '\t') && n >= 2 && (v[1] == ' ' || v[1] == '\t') {
        proof {
            lemma_drop_st_len(v@);
        }
        let dropped = drop_st_in(v);
        let rest = squeeze_ws_in(&dropped);
        let mut r: Vec<char> = Vec::new();
        r.push(' ');
        append_all(&mut r, &rest);
        assert(r@ =~= seq![' '] + spec_squeeze_ws(drop_st(v@)));
        r
    } else {
        let t = slice_of(v, 1, n);
        assert(t@ =~= v@.skip(1));
        let rest = squeeze_ws_in(&t);
        let mut r: Vec<char> = Vec::new();
        r.push(v[0]);
        append_all(&mut r, &rest);
        assert(r@ =~= seq![v@[0]] + spec_squeeze_ws(v@.skip(1)));
        r
    }
}

/// Tokenization spacing cleaned up: short text is only trimmed; longer text
/// with a double space additionally has its space and tab runs collapsed.
pub open spec fn spec_clean_spaces(s: Seq<char>) -> Seq<char> {
    if s.len() < 10 {
        crate::idl::trim_seq(s)
    } else {
        let t = if contains_seq(s, "  "@) {
            spec_squeeze_ws(s)
        } else {
            s
        };
        crate::idl::trim_seq(t)
    }
}

/// Cleans up tokenization spacing.
pub fn clean_spaces(v: &Vec<char>) -> (r: Vec<char>)
    ensures
        r@ == spec_clean_spaces(v@),
{
    if v.len() < 10 {
        return crate::idl::trim_in(v);
    }
    let dd = chars_of("  ");
    let t = if contains_in(v, &dd) {
        squeeze_ws_in(v)
    } else {
        crate::text::clone_of(v)
    };
    crate::idl::trim_in(&t)
}

/// `s` without any spaces or commas.
pub open spec fn spec_strip_sp_comma(s: Seq<char>) -> Seq<char>
    decreases s.len(),
{
    if s.len() == 0 {
        Seq::empty()
    } else if s[0] == ' ' || s[0] == ',' {
        spec_strip_sp_comma(s.skip(1))
    } else {
        seq![s[0]] + spec_strip_sp_comma(s.skip(1))
    }
}

fn strip_sp_comma(v: &Vec<char>) -> (r: Vec<char>)
    ensures
        r@ == spec_strip_sp_comma(v@),
{
    let n = v.len();
    let mut out: Vec<char> = Vec::new();
    proof {
        assert(v@.skip(0) =~= v@);
        assert(out@ + spec_strip_sp_comma(v@) =~= spec_strip_sp_comma(v@));
    }
    for i in 0..n
        invariant
            n == v@.len(),
            spec_strip_sp_comma(v@) == out@ + spec_strip_sp_comma(v@.skip(i as int)),
    {
        proof {
            assert(v@.skip(i as int).len() > 0);
            assert(v@.skip(i as int)[0] == v@[i as int]);
            assert(v@.skip(i as int).skip(1) =~= v@.skip(i + 1));
        }
        if v[i] != ' ' && v[i] != ',' {
            let ghost pre = out@;
            out.push(v[i]);
            assert(out@ + spec_strip_sp_comma(v@.skip(i + 1)) =~= pre + spec_strip_sp_comma(
                v@.skip(i as int),
            ));
        } else {
            assert(out@ + spec_strip_sp_comma(v@.skip(i + 1)) =~= out@ + spec_strip_sp_comma(
                v@.skip(i as int),
            ));
        }
    }
    assert(v@.skip(n as int) =~= Seq::<char>::empty());
    assert(out@ =~= out@ + spec_strip_sp_comma(v@.skip(n as int)));
    out
}

/// `s` without its trailing closing parentheses.
pub open spec fn drop_tr_paren(s: Seq<char>) -> Seq<char>
    decreases s.len(),
{
    if s.len() > 0 && s[s.len() - 1] == ')' {
        drop_tr_paren(s.take(s.len() - 1))
    } else {
        s
    }
}

fn drop_tr_paren_in(v: &Vec<char>) -> (r: Vec<char>)
    ensures
        r@ == drop_tr_paren(v@),
    decreases v@.len(),
{
    let n = v.len();
    if n > 0 && v[n - 1] == ')' {
        let t = slice_of(v, 0, n - 1);
        assert(t@ =~= v@.take(v@.len() - 1));
        drop_tr_paren_in(&t)
    } else {
        crate::text::clone_of(v)
    }
}

/// The conditional-assertion text a lowered guard becomes.
pub open spec fn spec_require_repl(cond: Seq<char>, err: Seq<char>) -> Seq<char> {
    "if !("@ + spec_clean_spaces(cond) + ") {\n        return Err("@ + err + ".into());\n    }"@
}

/// Spaced conditional-assertion macros from `i` on, lowered to explicit
/// branch-and-early-return guards.  A malformed call stops the scan.
pub open spec fn spec_require_spaced(s: Seq<char>) -> Seq<char>
    decreases s.len(),
    via spec_require_spaced_decreases
{
    match find_from(s, "require ! ("@, 0) {
        None => s,
        Some(st) => match spec_match_paren(s.skip(st + 10), 0, 0) {
            None => s,
            Some(end) => if st + 12 + end <= s.len() {
                let inner = s.subrange(st + 11, st + 11 + end);
                match spec_last_comma_from(inner, 0, 0, None) {
                    None => s,
                    Some(c) => {
                        let cond = crate::idl::trim_seq(inner.subrange(0, c));
                        let err = drop_tr_paren(crate::idl::trim_seq(inner.skip(c + 1)));
                        s.subrange(0, st) + spec_require_repl(cond, err) + spec_require_spaced(
                            s.skip(st + 12 + end),
                        )
                    },
                }
            } else {
                s
            },
        },
    }
}

#[via_fn]
proof fn spec_require_spaced_decreases(s: Seq<char>) {
    if find_from(s, "require ! ("@, 0) is Some {
        crate::text::lemma_find_from_some(s, "require ! ("@, 0);
        let st = find_from(s, "require ! ("@, 0)->Some_0;
        if spec_match_paren(s.skip(st + 10), 0, 0) is Some {
            lemma_match_paren_bounds(s.skip(st + 10), 0, 0);
        }
    }
}

/// Compact conditional-assertion macros from `i` on, lowered likewise.
pub open spec fn spec_require_compact(s: Seq<char>) -> Seq<char>
    decreases s.len(),
    via spec_require_compact_decreases
{
    match find_from(s, "require!("@, 0) {
        None => s,
        Some(st) => match spec_match_paren(s.skip(st), 0, 0) {
            None => s,
            Some(end) => if end >= 9 {
                let inner = s.subrange(st + 9, st + end);
                match spec_last_comma_from(inner, 0, 0, None) {
                    None => s,
                    Some(c) => {
                        let cond = crate::idl::trim_seq(inner.subrange(0, c));
                        let err = crate::idl::trim_seq(inner.skip(c + 1));
                        s.subrange(0, st) + spec_require_repl(cond, err) + spec_require_compact(
                            s.skip(st + end + 1),
                        )
                    },
                }
            } else {
                s
            },
        },
    }
}

#[via_fn]
proof fn spec_require_compact_decreases(s: Seq<char>) {
    if find_from(s, "require!("@, 0) is Some {
        crate::text::lemma_find_from_some(s, "require!("@, 0);
        let st = find_from(s, "require!("@, 0)->Some_0;
        if spec_match_paren(s.skip(st), 0, 0) is Some {
            lemma_match_paren_bounds(s.skip(st), 0, 0);
        }
    }
}

/// The assertion-lowering pass: spaced forms first, then compact forms.
pub open spec fn spec_transform_require(s: Seq<char>) -> Seq<char> {
    spec_require_compact(spec_require_spaced(s))
}

fn require_spaced(v: &Vec<char>) -> (r: Vec<char>)
    ensures
        r@ == spec_require_spaced(v@),
    decreases v@.len(),
{
    let pat = chars_of("require ! (");
    let n = v.len();
    match find_in(v, &pat, 0) {
        None => crate::text::clone_of(v),
        Some(st) => {
            proof {
                crate::text::lemma_find_from_some(v@, "require ! ("@, 0);
                reveal_strlit("require ! (");
            }
            let t = slice_of(v, st + 10, n);
            assert(t@ =~= v@.skip(st + 10));
            match find_matching_paren(&t) {
                None => crate::text::clone_of(v),
                Some(end) => {
                    proof {
                        lemma_match_paren_bounds(v@.skip(st + 10), 0, 0);
                    }
                    if n - (st + 11) >= end + 1 {
                        assert(st + 12 + end <= n);
                        let inner = slice_of(v, st + 11, st + 11 + end);
                        match find_last_comma(&inner) {
                            None => crate::text::clone_of(v),
                            Some(c) => {
                                proof {
                                    lemma_last_comma_bounds(inner@, 0, 0, None);
                                }
                                let condv = slice_of(&inner, 0, c);
                                let cond = crate::idl::trim_in(&condv);
                                let inn = inner.len();
                                let errv0 = slice_of(&inner, c + 1, inn);
                                assert(errv0@ =~= inner@.skip(c + 1));
                                let errt = crate::idl::trim_in(&errv0);
                                let err = drop_tr_paren_in(&errt);
                                let mut out = slice_of(v, 0, st);
                                append_str(&mut out, "if !(");
                                let cs = clean_spaces(&cond);
                                append_all(&mut out, &cs);
                                append_str(&mut out, ") {\n        return Err(");
                                append_all(&mut out, &err);
                                append_str(&mut out, ".into());\n    }");
                                let tail = slice_of(v, st + 12 + end, n);
                                assert(tail@ =~= v@.skip(st + 12 + end));
                                let rest = require_spaced(&tail);
                                append_all(&mut out, &rest);
                                assert(out@ =~= v@.subrange(0, st as int) + spec_require_repl(
                                    cond@,
                                    err@,
                                ) + spec_require_spaced(v@.skip(st + 12 + end)));
                                out
                            },
                        }
                    } else {
                        crate::text::clone_of(v)
                    }
                },
            }
        },
    }
}

fn require_compact(v: &Vec<char>) -> (r: Vec<char>)
    ensures
        r@ == spec_require_compact(v@),
    decreases v@.len(),
{
    let pat = chars_of("require!(");
    let n = v.len();
    match find_in(v, &pat, 0) {
        None => crate::text::clone_of(v),
        Some(st) => {
            proof {
                crate::text::lemma_find_from_some(v@, "require!("@, 0);
                reveal_strlit("require!(");
            }
            let t = slice_of(v, st, n);
            assert(t@ =~= v@.skip(st as int));
            match find_matching_paren(&t) {
                None => crate::text::clone_of(v),
                Some(end) => {
                    proof {
                        lemma_match_paren_bounds(v@.skip(st as int), 0, 0);
                    }
                    if end >= 9 {
                        let inner = slice_of(v, st + 9, st + end);
                        match find_last_comma(&inner) {
                            None => crate::text::clone_of(v),
                            Some(c) => {
                                proof {
                                    lemma_last_comma_bounds(inner@, 0, 0, None);
                                }
                                let condv = slice_of(&inner, 0, c);
                                let cond = crate::idl::trim_in(&condv);
                                let inn = inner.len();
                                let errv0 = slice_of(&inner, c + 1, inn);
                                assert(errv0@ =~= inner@.skip(c + 1));
                                let err = crate::idl::trim_in(&errv0);
                                let mut out = slice_of(v, 0, st);
                                append_str(&mut out, "if !(");
                                let cs = clean_spaces(&cond);
                                append_all(&mut out, &cs);
                                append_str(&mut out, ") {\n        return Err(");
                                append_all(&mut out, &err);
                                append_str(&mut out, ".into());\n    }");
                                let tail = slice_of(v, st + end + 1, n);
                                assert(tail@ =~= v@.skip(st + end + 1));
                                let rest = require_compact(&tail);
                                append_all(&mut out, &rest);
                                assert(out@ =~= v@.subrange(0, st as int) + spec_require_repl(
                                    cond@,
                                    err@,
                                ) + spec_require_compact(v@.skip(st + end + 1)));
                                out
                            },
                        }
                    } else {
                        crate::text::clone_of(v)
                    }
                },
            }
        },
    }
}

/// Key-equality assertions from `i` on, lowered to direct comparisons with
/// an early error return.  A call without arguments stops the scan.
pub open spec fn spec_require_keys_eq(s: Seq<char>) -> Seq<char>
    decreases s.len(),
    via spec_require_keys_eq_decreases
{
    match find_from(s, "require_keys_eq!("@, 0) {
        None => s,
        Some(st) => match spec_match_paren(s.skip(st), 0, 0) {
            None => s,
            Some(end) => if end >= 17 {
                let inner = s.subrange(st + 17, st + end);
                match find_from(inner, ","@, 0) {
                    None => s,
                    Some(c1) => {
                        let k1 = crate::idl::trim_seq(inner.subrange(0, c1));
                        let rest = inner.skip(c1 + 1);
                        let k2 = match find_from(rest, ","@, 0) {
                            Some(c2) => crate::idl::trim_seq(rest.subrange(0, c2)),
                            None => crate::idl::trim_seq(rest),
                        };
                        let err = match find_from(rest, ","@, 0) {
                            Some(c2) => crate::idl::trim_seq(rest.skip(c2 + 1)),
                            None => "ProgramError::InvalidAccountData"@,
                        };
                        s.subrange(0, st) + "if "@ + k1 + " != "@ + k2 + " { return Err("@ + err
                            + ".into()); }"@ + spec_require_keys_eq(s.skip(st + end + 1))
                    },
                }
            } else {
                s
            },
        },
    }
}

#[via_fn]
proof fn spec_require_keys_eq_decreases(s: Seq<char>) {
    if find_from(s, "require_keys_eq!("@, 0) is Some {
        crate::text::lemma_find_from_some(s, "require_keys_eq!("@, 0);
        let st = find_from(s, "require_keys_eq!("@, 0)->Some_0;
        if spec_match_paren(s.skip(st), 0, 0) is Some {
            lemma_match_paren_bounds(s.skip(st), 0, 0);
        }
    }
}

fn require_keys_eq(v: &Vec<char>) -> (r: Vec<char>)
    ensures
        r@ == spec_require_keys_eq(v@),
    decreases v@.len(),
{
    let pat = chars_of("require_keys_eq!(");
    let comma = chars_of(",");
    let n = v.len();
    match find_in(v, &pat, 0) {
        None => crate::text::clone_of(v),
        Some(st) => {
            proof {
                crate::text::lemma_find_from_some(v@, "require_keys_eq!("@, 0);
                reveal_strlit("require_keys_eq!(");
            }
            let t = slice_of(v, st, n);
            assert(t@ =~= v@.skip(st as int));
            match find_matching_paren(&t) {
                None => crate::text::clone_of(v),
                Some(end) => {
                    proof {
                        lemma_match_paren_bounds(v@.skip(st as int), 0, 0);
                    }
                    if end >= 17 {
                        let inner = slice_of(v, st + 17, st + end);
                        match find_in(&inner, &comma, 0) {
                            None => crate::text::clone_of(v),
                            Some(c1) => {
                                proof {
                                    crate::text::lemma_find_from_some(inner@, ","@, 0);
                                    reveal_strlit(",");
                                }
                                let k1v = slice_of(&inner, 0, c1);
                                let k1 = crate::idl::trim_in(&k1v);
                                let inn = inner.len();
                                let rest = slice_of(&inner, c1 + 1, inn);
                                assert(rest@ =~= inner@.skip(c1 + 1));
                                let mut k2: Vec<char>;
                                let mut err: Vec<char>;
                                match find_in(&rest, &comma, 0) {
                                    Some(c2) => {
                                        proof {
                                            crate::text::lemma_find_from_some(rest@, ","@, 0);
                                        }
                                        let k2v = slice_of(&rest, 0, c2);
                                        k2 = crate::idl::trim_in(&k2v);
                                        let rn = rest.len();
                                        let errv = slice_of(&rest, c2 + 1, rn);
                                        assert(errv@ =~= rest@.skip(c2 + 1));
                                        err = crate::idl::trim_in(&errv);
                                    },
                                    None => {
                                        k2 = crate::idl::trim_in(&rest);
                                        err = chars_of("ProgramError::InvalidAccountData");
                                    },
                                }
                                let mut out = slice_of(v, 0, st);
                                append_str(&mut out, "if ");
                                append_all(&mut out, &k1);
                                append_str(&mut out, " != ");
                                append_all(&mut out, &k2);
                                append_str(&mut out, " { return Err(");
                                append_all(&mut out, &err);
                                append_str(&mut out, ".into()); }");
                                let tail = slice_of(v, st + end + 1, n);
                                assert(tail@ =~= v@.skip(st + end + 1));
                                let rest2 = require_keys_eq(&tail);
                                append_all(&mut out, &rest2);
                                out
                            },
                        }
                    } else {
                        crate::text::clone_of(v)
                    }
                },
            }
        },
    }
}

/// Event emissions from `i` on, disabled into inert marker comments.
pub open spec fn spec_transform_emit(s: Seq<char>) -> Seq<char>
    decreases s.len(),
    via spec_transform_emit_decreases
{
    match find_from(s, "emit!("@, 0) {
        None => s,
        Some(st) => match spec_match_paren(s.skip(st), 0, 0) {
            None => s,
            Some(end) => if end >= 6 {
                let inner = s.subrange(st + 6, st + end);
                s.subrange(0, st) + "// TODO: Emit event: "@ + inner + spec_transform_emit(
                    s.skip(st + end + 1),
                )
            } else {
                s
            },
        },
    }
}

#[via_fn]
proof fn spec_transform_emit_decreases(s: Seq<char>) {
    if find_from(s, "emit!("@, 0) is Some {
        crate::text::lemma_find_from_some(s, "emit!("@, 0);
        let st = find_from(s, "emit!("@, 0)->Some_0;
        if spec_match_paren(s.skip(st), 0, 0) is Some {
            lemma_match_paren_bounds(s.skip(st), 0, 0);
        }
    }
}

fn transform_emit_macro(v: &Vec<char>) -> (r: Vec<char>)
    ensures
        r@ == spec_transform_emit(v@),
    decreases v@.len(),
{
    let pat = chars_of("emit!(");
    let n = v.len();
    match find_in(v, &pat, 0) {
        None => crate::text::clone_of(v),
        Some(st) => {
            proof {
                crate::text::lemma_find_from_some(v@, "emit!("@, 0);
                reveal_strlit("emit!(");
            }
            let t = slice_of(v, st, n);
            assert(t@ =~= v@.skip(st as int));
            match find_matching_paren(&t) {
                None => crate::text::clone_of(v),
                Some(end) => {
                    proof {
                        lemma_match_paren_bounds(v@.skip(st as int), 0, 0);
                    }
                    if end >= 6 {
                        let inner = slice_of(v, st + 6, st + end);
                        let mut out = slice_of(v, 0, st);
                        append_str(&mut out, "// TODO: Emit event: ");
                        append_all(&mut out, &inner);
                        let tail = slice_of(v, st + end + 1, n);
                        assert(tail@ =~= v@.skip(st + end + 1));
                        let rest = transform_emit_macro(&tail);
                        append_all(&mut out, &rest);
                        out
                    } else {
                        crate::text::clone_of(v)
                    }
                },
            }
        },
    }
}

// ------------------------------------------------------------------
// Diagnostic joining and statement formatting
// ------------------------------------------------------------------

/// Joins one diagnostic call: collects its argument text up to the closing
/// parenthesis, replacing line breaks by spaces, and returns the collected
/// text with the index after it.
pub open spec fn spec_msg_join(t: Seq<char>, i: int, depth: int, acc: Seq<char>) -> (Seq<char>, int)
    decreases t.len() - i,
{
    if i < 0 || i >= t.len() || depth <= 0 {
        (acc, i)
    } else {
        let c = t[i];
        if c == '(' {
            spec_msg_join(t, i + 1, depth + 1, acc.push(c))
        } else if c == ')' {
            if depth == 1 {
                (acc.push(c), i + 1)
            } else {
                spec_msg_join(t, i + 1, depth - 1, acc.push(c))
            }
        } else if c == '\n' {
            spec_msg_join(t, i + 1, depth, acc.push(' '))
        } else {
            spec_msg_join(t, i + 1, depth, acc.push(c))
        }
    }
}

/// The join never walks backwards nor past the end.
pub proof fn lemma_msg_join_bound(t: Seq<char>, i: int, depth: int, acc: Seq<char>)
    ensures
        spec_msg_join(t, i, depth, acc).1 >= i,
        i <= t.len() ==> spec_msg_join(t, i, depth, acc).1 <= t.len(),
    decreases t.len() - i,
{
    if i < 0 || i >= t.len() || depth <= 0 {
    } else {
        let c = t[i];
        if c == '(' {
            lemma_msg_join_bound(t, i + 1, depth + 1, acc.push(c));
        } else if c == ')' {
            if depth != 1 {
                lemma_msg_join_bound(t, i + 1, depth - 1, acc.push(c));
            }
        } else if c == '\n' {
            lemma_msg_join_bound(t, i + 1, depth, acc.push(' '));
        } else {
            lemma_msg_join_bound(t, i + 1, depth, acc.push(c));
        }
    }
}

/// Every run of two or more spaces collapsed to one space.
pub open spec fn spec_squeeze_sp(s: Seq<char>) -> Seq<char>
    decreases s.len(),
    via spec_squeeze_sp_decreases
{
    if s.len() == 0 {
        Seq::empty()
    } else if s[0] == ' ' && s.len() >= 2 && s[1] == ' ' {
        seq![' '] + spec_squeeze_sp(drop_sp(s))
    } else {
        seq![s[0]] + spec_squeeze_sp(s.skip(1))
    }
}

/// `s` without its leading run of spaces.
pub open spec fn drop_sp(s: Seq<char>) -> Seq<char>
    decreases s.len(),
{
    if s.len() > 0 && s[0] == ' ' {
        drop_sp(s.skip(1))
    } else {
        s
    }
}

proof fn lemma_drop_sp_len(s: Seq<char>)
    ensures
        drop_sp(s).len() <= s.len(),
        s.len() > 0 && s[0] == ' ' ==> drop_sp(s).len() < s.len(),
    decreases s.len(),
{
    if s.len() > 0 && s[0] == ' ' {
        lemma_drop_sp_len(s.skip(1));
    }
}

#[via_fn]
proof fn spec_squeeze_sp_decreases(s: Seq<char>) {
    if s.len() > 0 && s[0] == ' ' {
        lemma_drop_sp_len(s);
    }
}

fn drop_sp_in(v: &Vec<char>) -> (r: Vec<char>)
    ensures
        r@ == drop_sp(v@),
    decreases v@.len(),
{
    let n = v.len();
    if n > 0 && v[0] == ' ' {
        let t = slice_of(v, 1, n);
        assert(t@ =~= v@.skip(1));
        drop_sp_in(&t)
    } else {
        crate::text::clone_of(v)
    }
}

fn squeeze_sp_in(v: &Vec<char>) -> (r: Vec<char>)
    ensures
        r@ == spec_squeeze_sp(v@),
    decreases v@.len(),
{
    let n = v.len();
    if n == 0 {
        let r: Vec<char> = Vec::new();
        assert(r@ =~= Seq::<char>::empty());
        return r;
    }
    if v[0] == ' ' && n >= 2 && v[1] == ' ' {
        proof {
            lemma_drop_sp_len(v@);
        }
        let dropped = drop_sp_in(v);
        let rest = squeeze_sp_in(&dropped);
        let mut r: Vec<char> = Vec::new();
        r.push(' ');
        append_all(&mut r, &rest);
        assert(r@ =~= seq![' '] + spec_squeeze_sp(drop_sp(v@)));
        r
    } else {
        let t = slice_of(v, 1, n);
        assert(t@ =~= v@.skip(1));
        let rest = squeeze_sp_in(&t);
        let mut r: Vec<char> = Vec::new();
        r.push(v[0]);
        append_all(&mut r, &rest);
        assert(r@ =~= seq![v@[0]] + spec_squeeze_sp(v@.skip(1)));
        r
    }
}

/// Multi-line diagnostic calls from `i` on, joined onto one line.
pub open spec fn spec_join_msgs(s: Seq<char>, i: int) -> Seq<char>
    decreases s.len() - i,
    via spec_join_msgs_decreases
{
    if i < 0 || i >= s.len() {
        Seq::empty()
    } else if match_at(s, "msg ! ("@, i) {
        let r = spec_msg_join(s, i + 7, 1, Seq::empty());
        "msg!("@ + r.0 + spec_join_msgs(s, r.1)
    } else if match_at(s, "msg!("@, i) {
        let r = spec_msg_join(s, i + 5, 1, Seq::empty());
        "msg!("@ + r.0 + spec_join_msgs(s, r.1)
    } else {
        seq![s[i]] + spec_join_msgs(s, i + 1)
    }
}

#[via_fn]
proof fn spec_join_msgs_decreases(s: Seq<char>, i: int) {
    reveal_strlit("msg ! (");
    reveal_strlit("msg!(");
    lemma_msg_join_bound(s, i + 7, 1, Seq::empty());
    lemma_msg_join_bound(s, i + 5, 1, Seq::empty());
}

/// The diagnostic-joining pass: every diagnostic call on one line, then
/// space runs collapsed.
pub open spec fn spec_fix_multiline_msg(s: Seq<char>) -> Seq<char> {
    spec_squeeze_sp(spec_join_msgs(s, 0))
}

fn msg_join_x(t: &Vec<char>, start: usize) -> (r: (Vec<char>, usize))
    requires
        start <= t@.len(),
    ensures
        r.0@ == spec_msg_join(t@, start as int, 1, Seq::empty()).0,
        r.1 == spec_msg_join(t@, start as int, 1, Seq::empty()).1,
        r.1 <= t@.len(),
{
    let n = t.len();
    let mut i = start;
    let mut depth: i128 = 1;
    let mut acc: Vec<char> = Vec::new();
    loop
        invariant
            start <= i <= n,
            n == t@.len(),
            1 <= depth <= 1 + (i as i128),
            spec_msg_join(t@, start as int, 1, Seq::empty()) == spec_msg_join(
                t@,
                i as int,
                depth as int,
                acc@,
            ),
        decreases n - i,
    {
        if i >= n {
            return (acc, i);
        }
        let c = t[i];
        if c == '(' {
            depth = depth + 1;
            acc.push(c);
        } else if c == ')' {
            if depth == 1 {
                acc.push(c);
                return (acc, i + 1);
            }
            depth = depth - 1;
            acc.push(c);
        } else if c == '\n' {
            acc.push(' ');
        } else {
            acc.push(c);
        }
        i += 1;
    }
}

/// Joins multi-line diagnostic calls and collapses space runs.
pub fn fix_multiline_msg(body: &str) -> (r: String)
    ensures
        r@ == spec_fix_multiline_msg(body@),
{
    let v = chars_of(body);
    let n = v.len();
    let spaced = chars_of("msg ! (");
    let compact = chars_of("msg!(");
    let mut out: Vec<char> = Vec::new();
    let mut i: usize = 0;
    while i < n
        invariant
            i <= n,
            n == v@.len(),
            v@ == body@,
            spaced@ == "msg ! ("@,
            compact@ == "msg!("@,
            spec_join_msgs(v@, 0) == out@ + spec_join_msgs(v@, i as int),
        decreases n - i,
    {
        proof {
            reveal_strlit("msg ! (");
            reveal_strlit("msg!(");
        }
        let ghost pre = out@;
        if crate::text::match_at_in(&v, &spaced, i) {
            proof {
                lemma_msg_join_bound(v@, i + 7, 1, Seq::empty());
            }
            let rj = msg_join_x(&v, i + 7);
            append_str(&mut out, "msg!(");
            append_all(&mut out, &rj.0);
            assert(out@ + spec_join_msgs(v@, rj.1 as int) =~= pre + spec_join_msgs(v@, i as int));
            i = rj.1;
        } else if crate::text::match_at_in(&v, &compact, i) {
            proof {
                lemma_msg_join_bound(v@, i + 5, 1, Seq::empty());
            }
            let rj = msg_join_x(&v, i + 5);
            append_str(&mut out, "msg!(");
            append_all(&mut out, &rj.0);
            assert(out@ + spec_join_msgs(v@, rj.1 as int) =~= pre + spec_join_msgs(v@, i as int));
            i = rj.1;
        } else {
            out.push(v[i]);
            assert(out@ + spec_join_msgs(v@, i + 1) =~= pre + spec_join_msgs(v@, i as int));
            i = i + 1;
        }
    }
    assert(spec_join_msgs(v@, n as int) =~= Seq::<char>::empty());
    assert(out@ =~= out@ + spec_join_msgs(v@, n as int));
    let sq = squeeze_sp_in(&out);
    string_of(&sq)
}

/// Reflows a rewritten body into top-level statements: a flush at every
/// statement-ending semicolon or balanced closing brace, with surrounding
/// whitespace trimmed.
pub open spec fn spec_format_stmts(
    s: Seq<char>,
    i: int,
    bd: int,
    kd: int,
    cur: Seq<char>,
    out: Seq<char>,
) -> Seq<char>
    decreases s.len() - i,
{
    if i < 0 || i >= s.len() {
        if crate::idl::trim_seq(cur).len() > 0 {
            out + crate::idl::trim_seq(cur)
        } else {
            out
        }
    } else {
        let c = s[i];
        let cur2 = cur.push(c);
        if c == '{' {
            spec_format_stmts(s, i + 1, bd + 1, kd, cur2, out)
        } else if c == '}' {
            if bd - 1 == 0 && kd == 0 && crate::idl::trim_seq(cur2).len() > 0 {
                spec_format_stmts(
                    s,
                    i + 1,
                    bd - 1,
                    kd,
                    Seq::empty(),
                    out + crate::idl::trim_seq(cur2) + "\n"@,
                )
            } else {
                spec_format_stmts(s, i + 1, bd - 1, kd, cur2, out)
            }
        } else if c == '[' {
            spec_format_stmts(s, i + 1, bd, kd + 1, cur2, out)
        } else if c == ']' {
            spec_format_stmts(s, i + 1, bd, if kd - 1 >= 0 { kd - 1 } else { 0 }, cur2, out)
        } else if c == ';' && bd == 0 && kd == 0 {
            spec_format_stmts(s, i + 1, bd, kd, Seq::empty(), out + crate::idl::trim_seq(cur2) + "\n"@)
        } else {
            spec_format_stmts(s, i + 1, bd, kd, cur2, out)
        }
    }
}

/// Reflows a rewritten body into well-formed top-level statements.
pub fn format_body_statements(body: &str) -> (r: String)
    ensures
        r@ == spec_format_stmts(body@, 0, 0, 0, Seq::empty(), Seq::empty()),
{
    let v = chars_of(body);
    let n = v.len();
    let mut cur: Vec<char> = Vec::new();
    let mut out: Vec<char> = Vec::new();
    let mut bd: i128 = 0;
    let mut kd: i128 = 0;
    let mut i: usize = 0;
    while i < n
        invariant
            i <= n,
            n == v@.len(),
            v@ == body@,
            -(i as i128) <= bd <= i as i128,
            0 <= kd <= i as i128,
            spec_format_stmts(body@, 0, 0, 0, Seq::empty(), Seq::empty()) == spec_format_stmts(
                v@,
                i as int,
                bd as int,
                kd as int,
                cur@,
                out@,
            ),
        decreases n - i,
    {
        let c = v[i];
        cur.push(c);
        if c == '{' {
            bd = bd + 1;
        } else if c == '}' {
            bd = bd - 1;
            if bd == 0 && kd == 0 {
                let t = crate::idl::trim_in(&cur);
                if t.len() > 0 {
                    append_all(&mut out, &t);
                    append_str(&mut out, "\n");
                    cur = Vec::new();
                }
            }
        } else if c == '[' {
            kd = kd + 1;
        } else if c == ']' {
            if kd >= 1 {
                kd = kd - 1;
            } else {
                kd = 0;
            }
        } else if c == ';' && bd == 0 && kd == 0 {
            let t = crate::idl::trim_in(&cur);
            append_all(&mut out, &t);
            append_str(&mut out, "\n");
            cur = Vec::new();
        }
        i += 1;
    }
    let t = crate::idl::trim_in(&cur);
    if t.len() > 0 {
        append_all(&mut out, &t);
    }
    string_of(&out)
}

// ------------------------------------------------------------------
// Cross-program call rewriting
// ------------------------------------------------------------------

/// Index of the brace closing the nesting opened so far.
pub open spec fn spec_match_brace(t: Seq<char>, i: int, depth: int) -> Option<int>
    decreases t.len() - i,
{
    if i < 0 || i >= t.len() {
        None
    } else if t[i] == '{' {
        spec_match_brace(t, i + 1, depth + 1)
    } else if t[i] == '}' {
        if depth == 1 {
            Some(i)
        } else {
            spec_match_brace(t, i + 1, depth - 1)
        }
    } else {
        spec_match_brace(t, i + 1, depth)
    }
}

/// A found closing brace lies at or after the scan start and inside the
/// text.
pub proof fn lemma_match_brace_bounds(t: Seq<char>, i: int, depth: int)
    requires
        spec_match_brace(t, i, depth) is Some,
    ensures
        i <= spec_match_brace(t, i, depth)->Some_0 < t.len(),
    decreases t.len() - i,
{
    if 0 <= i < t.len() {
        if t[i] == '{' {
            lemma_match_brace_bounds(t, i + 1, depth + 1);
        } else if t[i] == '}' {
            if depth != 1 {
                lemma_match_brace_bounds(t, i + 1, depth - 1);
            }
        } else {
            lemma_match_brace_bounds(t, i + 1, depth);
        }
    }
}

/// Finds the brace closing the first one of `t`.
pub fn find_matching_brace(t: &Vec<char>) -> (r: Option<usize>)
    ensures
        match r {
            Some(j) => spec_match_brace(t@, 0, 0) == Some(j as int),
            None => spec_match_brace(t@, 0, 0) is None,
        },
{
    let n = t.len();
    let mut i: usize = 0;
    let mut depth: i128 = 0;
    loop
        invariant
            i <= n,
            n == t@.len(),
            -(i as i128) <= depth <= i as i128,
            spec_match_brace(t@, 0, 0) == spec_match_brace(t@, i as int, depth as int),
        decreases n - i,
    {
        if i >= n {
            return None;
        }
        let c = t[i];
        if c == '{' {
            depth = depth + 1;
        } else if c == '}' {
            if depth == 1 {
                return Some(i);
            }
            depth = depth - 1;
        }
        i += 1;
    }
}

/// End of a call statement: after the call's balanced parentheses close,
/// through the following semicolon when there is one.
pub open spec fn spec_call_end_semi(t: Seq<char>, i: int, depth: int, in_call: bool) -> Option<int>
    decreases t.len() - i,
{
    if i < 0 || i >= t.len() {
        None
    } else if t[i] == '(' {
        spec_call_end_semi(t, i + 1, depth + 1, true)
    } else if t[i] == ')' {
        if in_call && depth == 1 {
            match find_from(t, ";"@, i) {
                Some(semi) => Some(semi + 1),
                None => Some(i + 1),
            }
        } else {
            spec_call_end_semi(t, i + 1, depth - 1, in_call)
        }
    } else {
        spec_call_end_semi(t, i + 1, depth, in_call)
    }
}

/// A found statement end is positive and inside the text.
pub proof fn lemma_call_end_semi_bounds(t: Seq<char>, i: int, depth: int, in_call: bool)
    requires
        spec_call_end_semi(t, i, depth, in_call) is Some,
        0 <= i,
    ensures
        1 <= spec_call_end_semi(t, i, depth, in_call)->Some_0 <= t.len(),
    decreases t.len() - i,
{
    if 0 <= i < t.len() {
        if t[i] == '(' {
            lemma_call_end_semi_bounds(t, i + 1, depth + 1, true);
        } else if t[i] == ')' {
            if in_call && depth == 1 {
                if find_from(t, ";"@, i as int) is Some {
                    crate::text::lemma_find_from_some(t, ";"@, i as int);
                    reveal_strlit(";");
                }
            } else {
                lemma_call_end_semi_bounds(t, i + 1, depth - 1, in_call);
            }
        } else {
            lemma_call_end_semi_bounds(t, i + 1, depth, in_call);
        }
    }
}

fn call_end_semi(t: &Vec<char>) -> (r: Option<usize>)
    ensures
        match r {
            Some(j) => spec_call_end_semi(t@, 0, 0, false) == Some(j as int),
            None => spec_call_end_semi(t@, 0, 0, false) is None,
        },
{
    let n = t.len();
    let semi = chars_of(";");
    let mut i: usize = 0;
    let mut depth: i128 = 0;
    let mut in_call = false;
    loop
        invariant
            i <= n,
            n == t@.len(),
            semi@ == ";"@,
            -(i as i128) <= depth <= i as i128,
            spec_call_end_semi(t@, 0, 0, false) == spec_call_end_semi(
                t@,
                i as int,
                depth as int,
                in_call,
            ),
        decreases n - i,
    {
        if i >= n {
            return None;
        }
        let c = t[i];
        if c == '(' {
            depth = depth + 1;
            in_call = true;
        } else if c == ')' {
            if in_call && depth == 1 {
                proof {
                    reveal_strlit(";");
                }
                match find_in(t, &semi, i) {
                    Some(sp) => {
                        proof {
                            crate::text::lemma_find_from_some(t@, ";"@, i as int);
                        }
                        return Some(sp + 1);
                    },
                    None => {
                        return Some(i + 1);
                    },
                }
            }
            depth = depth - 1;
        }
        i += 1;
    }
}

/// End of a call: after the balanced close, plus two more characters when a
/// `) ?` or `);` follows immediately.
pub open spec fn spec_call_end_q(t: Seq<char>, i: int, depth: int, in_call: bool) -> Option<int>
    decreases t.len() - i,
{
    if i < 0 || i >= t.len() {
        None
    } else if t[i] == '(' {
        spec_call_end_q(t, i + 1, depth + 1, true)
    } else if t[i] == ')' {
        if in_call && depth == 1 {
            if match_at(t, ") ?"@, i) || match_at(t, ");"@, i) {
                if i + 3 <= t.len() {
                    Some(i + 3)
                } else {
                    Some(t.len() as int)
                }
            } else {
                Some(i + 1)
            }
        } else {
            spec_call_end_q(t, i + 1, depth - 1, in_call)
        }
    } else {
        spec_call_end_q(t, i + 1, depth, in_call)
    }
}

/// A found call end is positive and at most two past the text.
pub proof fn lemma_call_end_q_bounds(t: Seq<char>, i: int, depth: int, in_call: bool)
    requires
        spec_call_end_q(t, i, depth, in_call) is Some,
        0 <= i,
    ensures
        1 <= spec_call_end_q(t, i, depth, in_call)->Some_0 <= t.len() + 2,
    decreases t.len() - i,
{
    if 0 <= i < t.len() {
        if t[i] == '(' {
            lemma_call_end_q_bounds(t, i + 1, depth + 1, true);
        } else if t[i] == ')' {
            if !(in_call && depth == 1) {
                lemma_call_end_q_bounds(t, i + 1, depth - 1, in_call);
            }
        } else {
            lemma_call_end_q_bounds(t, i + 1, depth, in_call);
        }
    }
}

fn call_end_q(t: &Vec<char>) -> (r: Option<usize>)
    ensures
        match r {
            Some(j) => spec_call_end_q(t@, 0, 0, false) == Some(j as int),
            None => spec_call_end_q(t@, 0, 0, false) is None,
        },
{
    let n = t.len();
    let pq = chars_of(") ?");
    let ps = chars_of(");");
    let mut i: usize = 0;
    let mut depth: i128 = 0;
    let mut in_call = false;
    loop
        invariant
            i <= n,
            n == t@.len(),
            pq@ == ") ?"@,
            ps@ == ");"@,
            -(i as i128) <= depth <= i as i128,
            spec_call_end_q(t@, 0, 0, false) == spec_call_end_q(
                t@,
                i as int,
                depth as int,
                in_call,
            ),
        decreases n - i,
    {
        if i >= n {
            return None;
        }
        let c = t[i];
        if c == '(' {
            depth = depth + 1;
            in_call = true;
        } else if c == ')' {
            if in_call && depth == 1 {
                if crate::text::match_at_in(t, &pq, i) || crate::text::match_at_in(t, &ps, i) {
                    proof {
                        reveal_strlit(") ?");
                        reveal_strlit(");");
                    }
                    if n - i >= 3 {
                        return Some(i + 3);
                    } else {
                        assert(spec_call_end_q(t@, i as int, depth as int, in_call) == Some(
                            t@.len() as int,
                        ));
                        return Some(n);
                    }
                }
                return Some(i + 1);
            }
            depth = depth - 1;
        }
        i += 1;
    }
}

/// Index of the last occurrence of `p` in `s` at or before `i`.
pub open spec fn spec_rfind_from(s: Seq<char>, p: Seq<char>, i: int) -> Option<int>
    decreases i + 1,
{
    if i < 0 {
        None
    } else if match_at(s, p, i) {
        Some(i)
    } else {
        spec_rfind_from(s, p, i - 1)
    }
}

/// Index of the last occurrence of `p` in `s`.
pub open spec fn spec_rfind(s: Seq<char>, p: Seq<char>) -> Option<int> {
    spec_rfind_from(s, p, s.len() - p.len())
}

/// A found last occurrence is in range.
pub proof fn lemma_rfind_bounds(s: Seq<char>, p: Seq<char>, i: int)
    requires
        spec_rfind_from(s, p, i) is Some,
    ensures
        0 <= spec_rfind_from(s, p, i)->Some_0 <= i,
        match_at(s, p, spec_rfind_from(s, p, i)->Some_0),
    decreases i + 1,
{
    if i >= 0 && !match_at(s, p, i) {
        lemma_rfind_bounds(s, p, i - 1);
    }
}

fn rfind_in(v: &Vec<char>, p: &Vec<char>) -> (r: Option<usize>)
    ensures
        match r {
            Some(j) => spec_rfind(v@, p@) == Some(j as int),
            None => spec_rfind(v@, p@) is None,
        },
{
    if p.len() > v.len() {
        proof {
            lemma_rfind_none(v@, p@, v@.len() - p@.len());
        }
        return None;
    }
    let mut i: usize = v.len() - p.len();
    loop
        invariant
            0 <= i <= v@.len() - p@.len(),
            p@.len() <= v@.len(),
            spec_rfind(v@, p@) == spec_rfind_from(v@, p@, i as int),
        decreases i + 1,
    {
        if crate::text::match_at_in(v, p, i) {
            return Some(i);
        }
        if i == 0 {
            proof {
                lemma_rfind_none(v@, p@, -1);
            }
            return None;
        }
        i -= 1;
    }
}

proof fn lemma_rfind_none(s: Seq<char>, p: Seq<char>, i: int)
    requires
        i < 0,
    ensures
        spec_rfind_from(s, p, i) is None,
{
}

/// The text of a struct-literal field value: from after `name :` to the
/// next comma or closing brace, trimmed; empty when the field is absent.
pub open spec fn spec_extract_field(s: Seq<char>, name: Seq<char>) -> Seq<char> {
    let pat = name + " :"@;
    match find_from(s, pat, 0) {
        Some(st) => {
            let after = s.skip(st + pat.len());
            let end = match find_from(after, ","@, 0) {
                Some(e) => e,
                None => match find_from(after, "}"@, 0) {
                    Some(e) => e,
                    None => after.len() as int,
                },
            };
            crate::idl::trim_seq(after.subrange(0, end))
        },
        None => Seq::empty(),
    }
}

fn extract_field(s: &Vec<char>, name: &str) -> (r: Vec<char>)
    ensures
        r@ == spec_extract_field(s@, name@),
{
    let mut pat = chars_of(name);
    append_str(&mut pat, " :");
    let n = s.len();
    match find_in(s, &pat, 0) {
        Some(st) => {
            proof {
                crate::text::lemma_find_from_some(s@, name@ + " :"@, 0);
            }
            let after = slice_of(s, st + pat.len(), n);
            assert(after@ =~= s@.skip(st + pat@.len()));
            let comma = chars_of(",");
            let brace = chars_of("}");
            let an = after.len();
            let end: usize = match find_in(&after, &comma, 0) {
                Some(e) => {
                    proof {
                        crate::text::lemma_find_from_some(after@, ","@, 0);
                    }
                    e
                },
                None => match find_in(&after, &brace, 0) {
                    Some(e) => {
                        proof {
                            crate::text::lemma_find_from_some(after@, "}"@, 0);
                        }
                        e
                    },
                    None => an,
                },
            };
            let piece = slice_of(&after, 0, end);
            crate::idl::trim_in(&piece)
        },
        None => {
            let r: Vec<char> = Vec::new();
            assert(r@ =~= Seq::<char>::empty());
            r
        },
    }
}

/// An account expression reduced to its account name: the text before the
/// first dot, trimmed.
pub open spec fn spec_clean_name(s: Seq<char>) -> Seq<char> {
    match find_from(s, "."@, 0) {
        Some(d) => crate::idl::trim_seq(s.subrange(0, d)),
        None => crate::idl::trim_seq(s),
    }
}

fn clean_account_name(s: &Vec<char>) -> (r: Vec<char>)
    ensures
        r@ == spec_clean_name(s@),
{
    let dot = chars_of(".");
    match find_in(s, &dot, 0) {
        Some(d) => {
            proof {
                crate::text::lemma_find_from_some(s@, "."@, 0);
            }
            let piece = slice_of(s, 0, d);
            crate::idl::trim_in(&piece)
        },
        None => crate::idl::trim_in(s),
    }
}

/// The fallback amount names tried, in order, when no amount can be read
/// from the call tail; the plain name `amount` is the last resort.
pub open spec fn spec_amount_fallback(rest: Seq<char>, fbs: Seq<Seq<char>>, i: int) -> Seq<char>
    decreases fbs.len() - i,
{
    if i < 0 || i >= fbs.len() {
        "amount"@
    } else if contains_seq(rest, fbs[i]) {
        fbs[i]
    } else {
        spec_amount_fallback(rest, fbs, i + 1)
    }
}

/// The amount read from a call tail: the last argument before the closing
/// `) ?`, cleaned of spaces and commas, unless it is empty or signer
/// material; else the first fallback name the tail mentions.
pub open spec fn spec_extract_amount(rest: Seq<char>, fbs: Seq<Seq<char>>) -> Seq<char> {
    let t = crate::idl::trim_seq(rest);
    match spec_rfind(t, ") ?"@) {
        Some(lp) => {
            let before = t.subrange(0, lp);
            match spec_rfind(before, ","@) {
                Some(cp) => {
                    let amt = crate::idl::trim_seq(
                        drop_tr_paren(crate::idl::trim_seq(before.skip(cp + 1))),
                    );
                    if amt.len() > 0 && !contains_seq(amt, "signer"@) {
                        spec_strip_sp_comma(amt)
                    } else {
                        spec_amount_fallback(rest, fbs, 0)
                    }
                },
                None => spec_amount_fallback(rest, fbs, 0),
            }
        },
        None => spec_amount_fallback(rest, fbs, 0),
    }
}

fn amount_fallback(rest: &Vec<char>, fbs: &Vec<Vec<char>>) -> (r: Vec<char>)
    ensures
        r@ == spec_amount_fallback(rest@, fbs.deep_view(), 0),
{
    let n = fbs.len();
    for i in 0..n
        invariant
            n == fbs@.len(),
            spec_amount_fallback(rest@, fbs.deep_view(), 0) == spec_amount_fallback(
                rest@,
                fbs.deep_view(),
                i as int,
            ),
    {
        proof {
            assert(fbs.deep_view()[i as int] == fbs@[i as int].deep_view());
            assert(fbs@[i as int].deep_view() =~= fbs@[i as int]@);
        }
        if contains_in(rest, &fbs[i]) {
            return crate::text::clone_of(&fbs[i]);
        }
    }
    chars_of("amount")
}

fn extract_amount(rest: &Vec<char>, fbs: &Vec<Vec<char>>) -> (r: Vec<char>)
    ensures
        r@ == spec_extract_amount(rest@, fbs.deep_view()),
{
    let t = crate::idl::trim_in(rest);
    let pq = chars_of(") ?");
    let comma = chars_of(",");
    let signer = chars_of("signer");
    match rfind_in(&t, &pq) {
        Some(lp) => {
            proof {
                lemma_rfind_bounds(t@, ") ?"@, t@.len() - ") ?"@.len());
            }
            let before = slice_of(&t, 0, lp);
            match rfind_in(&before, &comma) {
                Some(cp) => {
                    proof {
                        lemma_rfind_bounds(before@, ","@, before@.len() - ","@.len());
                        reveal_strlit(",");
                    }
                    let bn = before.len();
                    let piece = slice_of(&before, cp + 1, bn);
                    assert(piece@ =~= before@.skip(cp + 1));
                    let t1 = crate::idl::trim_in(&piece);
                    let t2 = drop_tr_paren_in(&t1);
                    let amt = crate::idl::trim_in(&t2);
                    if amt.len() > 0 && !contains_in(&amt, &signer) {
                        strip_sp_comma(&amt)
                    } else {
                        amount_fallback(rest, fbs)
                    }
                },
                None => amount_fallback(rest, fbs),
            }
        },
        None => amount_fallback(rest, fbs),
    }
}

/// The inert marker left for a call that could not be reconstructed: a
/// leading slice of the call behind a marker comment, sized per call
/// family (0 transfer, 1 mint, 2 burn).
pub open spec fn spec_call_marker(call: Seq<char>, kind: int) -> Seq<char> {
    let head: Seq<char> = if kind == 0 {
        "// TODO: Transform CPI: "@
    } else if kind == 1 {
        "// TODO: Transform mint CPI: "@
    } else {
        "// TODO: Transform burn CPI: "@
    };
    let keep: int = if kind == 0 {
        100
    } else {
        80
    };
    head + (if call.len() <= keep {
        call
    } else {
        call.subrange(0, keep)
    })
}

fn call_marker(call: &Vec<char>, kind: usize) -> (r: Vec<char>)
    requires
        kind < 3,
    ensures
        r@ == spec_call_marker(call@, kind as int),
{
    let mut out = if kind == 0 {
        chars_of("// TODO: Transform CPI: ")
    } else if kind == 1 {
        chars_of("// TODO: Transform mint CPI: ")
    } else {
        chars_of("// TODO: Transform burn CPI: ")
    };
    let keep: usize = if kind == 0 {
        100
    } else {
        80
    };
    let n = call.len();
    if n <= keep {
        append_all(&mut out, call);
    } else {
        append_range(&mut out, call, 0, keep);
    }
    out
}

/// One recognized token-transfer call, rebuilt as an explicit instruction
/// construction and invocation; an unrecognizable call degrades to a marker.
pub open spec fn spec_single_transfer(call: Seq<char>, with_signer: bool) -> Seq<char> {
    match find_from(call, "Transfer {"@, 0) {
        Some(ts) => {
            let after = call.skip(ts);
            match spec_match_brace(after, 0, 0) {
                Some(be) => if be >= 10 {
                    let tbody = after.subrange(10, be);
                    let from = spec_clean_name(spec_extract_field(tbody, "from"@));
                    let to = spec_clean_name(spec_extract_field(tbody, "to"@));
                    let auth = spec_clean_name(spec_extract_field(tbody, "authority"@));
                    let amount = spec_extract_amount(call.skip(ts + be), transfer_fallbacks());
                    crate::cpi_helpers::spec_token_transfer_cpi(
                        from,
                        to,
                        auth,
                        amount,
                        with_signer,
                        None,
                    )
                } else {
                    spec_call_marker(call, 0)
                },
                None => spec_call_marker(call, 0),
            }
        },
        None => spec_call_marker(call, 0),
    }
}

/// The amount names tried for a transfer call.
pub open spec fn transfer_fallbacks() -> Seq<Seq<char>> {
    split_words(transfer_fallbacks_text()@)
}

pub open spec fn transfer_fallbacks_text() -> &'static str {
    "total_pending bags_to_withdraw pump_to_withdraw bags_amount pump_amount lp_amount staked_amount unstake_amount reward_amount total_rewards amount_in amount_out amount_out_after_fee transfer_amount"
}

fn single_transfer(call: &Vec<char>, with_signer: bool) -> (r: Vec<char>)
    ensures
        r@ == spec_single_transfer(call@, with_signer),
{
    let pat = chars_of("Transfer {");
    let n = call.len();
    match find_in(call, &pat, 0) {
        None => call_marker(call, 0),
        Some(ts) => {
            proof {
                crate::text::lemma_find_from_some(call@, "Transfer {"@, 0);
            }
            let after = slice_of(call, ts, n);
            assert(after@ =~= call@.skip(ts as int));
            match find_matching_brace(&after) {
                None => call_marker(call, 0),
                Some(be) => {
                    proof {
                        lemma_match_brace_bounds(call@.skip(ts as int), 0, 0);
                    }
                    if be >= 10 {
                        let tbody = slice_of(&after, 10, be);
                        let fromv = extract_field(&tbody, "from");
                        let from = clean_account_name(&fromv);
                        let tov = extract_field(&tbody, "to");
                        let to = clean_account_name(&tov);
                        let authv = extract_field(&tbody, "authority");
                        let auth = clean_account_name(&authv);
                        let rest = slice_of(call, ts + be, n);
                        assert(rest@ =~= call@.skip(ts + be));
                        let fbv = chars_of(
                            "total_pending bags_to_withdraw pump_to_withdraw bags_amount pump_amount lp_amount staked_amount unstake_amount reward_amount total_rewards amount_in amount_out amount_out_after_fee transfer_amount",
                        );
                        let fbs = crate::text::split_words_in(&fbv);
                        assert(fbs.deep_view() == transfer_fallbacks());
                        let amount = extract_amount(&rest, &fbs);
                        let out = crate::cpi_helpers::token_transfer_cpi(
                            string_of(&from).as_str(),
                            string_of(&to).as_str(),
                            string_of(&auth).as_str(),
                            string_of(&amount).as_str(),
                            with_signer,
                            None,
                        );
                        chars_of(out.as_str())
                    } else {
                        call_marker(call, 0)
                    }
                },
            }
        },
    }
}

/// One recognized token-mint call, rebuilt likewise; the signer form is
/// assumed.
pub open spec fn spec_single_mint(call: Seq<char>) -> Seq<char> {
    match find_from(call, "MintTo {"@, 0) {
        Some(ts) => {
            let after = call.skip(ts);
            match spec_match_brace(after, 0, 0) {
                Some(be) => if be >= 8 {
                    let tbody = after.subrange(8, be);
                    let mint = spec_clean_name(spec_extract_field(tbody, "mint"@));
                    let to = spec_clean_name(spec_extract_field(tbody, "to"@));
                    let auth = spec_clean_name(spec_extract_field(tbody, "authority"@));
                    let amount = spec_extract_amount(call.skip(ts + be), mint_fallbacks());
                    crate::cpi_helpers::spec_token_mint_to_cpi(mint, to, auth, amount, true, None)
                } else {
                    spec_call_marker(call, 1)
                },
                None => spec_call_marker(call, 1),
            }
        },
        None => spec_call_marker(call, 1),
    }
}

/// The amount names tried for a mint call.
pub open spec fn mint_fallbacks() -> Seq<Seq<char>> {
    split_words(mint_fallbacks_text()@)
}

pub open spec fn mint_fallbacks_text() -> &'static str {
    "lp_amount amount mint_amount"
}

fn single_mint(call: &Vec<char>) -> (r: Vec<char>)
    ensures
        r@ == spec_single_mint(call@),
{
    let pat = chars_of("MintTo {");
    let n = call.len();
    match find_in(call, &pat, 0) {
        None => call_marker(call, 1),
        Some(ts) => {
            proof {
                crate::text::lemma_find_from_some(call@, "MintTo {"@, 0);
            }
            let after = slice_of(call, ts, n);
            assert(after@ =~= call@.skip(ts as int));
            match find_matching_brace(&after) {
                None => call_marker(call, 1),
                Some(be) => {
                    proof {
                        lemma_match_brace_bounds(call@.skip(ts as int), 0, 0);
                    }
                    if be >= 8 {
                        let tbody = slice_of(&after, 8, be);
                        let mintv = extract_field(&tbody, "mint");
                        let mint = clean_account_name(&mintv);
                        let tov = extract_field(&tbody, "to");
                        let to = clean_account_name(&tov);
                        let authv = extract_field(&tbody, "authority");
                        let auth = clean_account_name(&authv);
                        let rest = slice_of(call, ts + be, n);
                        assert(rest@ =~= call@.skip(ts + be));
                        let fbv = chars_of("lp_amount amount mint_amount");
                        let fbs = crate::text::split_words_in(&fbv);
                        assert(fbs.deep_view() == mint_fallbacks());
                        let amount = extract_amount(&rest, &fbs);
                        let out = crate::cpi_helpers::token_mint_to_cpi(
                            string_of(&mint).as_str(),
                            string_of(&to).as_str(),
                            string_of(&auth).as_str(),
                            string_of(&amount).as_str(),
                            true,
                            None,
                        );
                        chars_of(out.as_str())
                    } else {
                        call_marker(call, 1)
                    }
                },
            }
        },
    }
}

/// One recognized token-burn call, rebuilt likewise.
pub open spec fn spec_single_burn(call: Seq<char>) -> Seq<char> {
    match find_from(call, "Burn {"@, 0) {
        Some(ts) => {
            let after = call.skip(ts);
            match spec_match_brace(after, 0, 0) {
                Some(be) => if be >= 6 {
                    let tbody = after.subrange(6, be);
                    let from = spec_clean_name(spec_extract_field(tbody, "from"@));
                    let mint = spec_clean_name(spec_extract_field(tbody, "mint"@));
                    let auth = spec_clean_name(spec_extract_field(tbody, "authority"@));
                    let amount = spec_extract_amount(call.skip(ts + be), burn_fallbacks());
                    crate::cpi_helpers::spec_token_burn_cpi(mint, from, auth, amount)
                } else {
                    spec_call_marker(call, 2)
                },
                None => spec_call_marker(call, 2),
            }
        },
        None => spec_call_marker(call, 2),
    }
}

/// The amount names tried for a burn call.
pub open spec fn burn_fallbacks() -> Seq<Seq<char>> {
    split_words(burn_fallbacks_text()@)
}

pub open spec fn burn_fallbacks_text() -> &'static str {
    "lp_amount amount burn_amount"
}

fn single_burn(call: &Vec<char>) -> (r: Vec<char>)
    ensures
        r@ == spec_single_burn(call@),
{
    let pat = chars_of("Burn {");
    let n = call.len();
    match find_in(call, &pat, 0) {
        None => call_marker(call, 2),
        Some(ts) => {
            proof {
                crate::text::lemma_find_from_some(call@, "Burn {"@, 0);
            }
            let after = slice_of(call, ts, n);
            assert(after@ =~= call@.skip(ts as int));
            match find_matching_brace(&after) {
                None => call_marker(call, 2),
                Some(be) => {
                    proof {
                        lemma_match_brace_bounds(call@.skip(ts as int), 0, 0);
                    }
                    if be >= 6 {
                        let tbody = slice_of(&after, 6, be);
                        let fromv = extract_field(&tbody, "from");
                        let from = clean_account_name(&fromv);
                        let mintv = extract_field(&tbody, "mint");
                        let mint = clean_account_name(&mintv);
                        let authv = extract_field(&tbody, "authority");
                        let auth = clean_account_name(&authv);
                        let rest = slice_of(call, ts + be, n);
                        assert(rest@ =~= call@.skip(ts + be));
                        let fbv = chars_of("lp_amount amount burn_amount");
                        let fbs = crate::text::split_words_in(&fbv);
                        assert(fbs.deep_view() == burn_fallbacks());
                        let amount = extract_amount(&rest, &fbs);
                        let out = crate::cpi_helpers::token_burn_cpi(
                            string_of(&mint).as_str(),
                            string_of(&from).as_str(),
                            string_of(&auth).as_str(),
                            string_of(&amount).as_str(),
                        );
                        chars_of(out.as_str())
                    } else {
                        call_marker(call, 2)
                    }
                },
            }
        },
    }
}

/// Which call family a rewrite scan handles.
pub open spec fn spec_rewrite_one(call: Seq<char>, kind: int, with_signer: bool) -> Seq<char> {
    if kind == 0 {
        spec_single_transfer(call, with_signer)
    } else if kind == 1 {
        spec_single_mint(call)
    } else {
        spec_single_burn(call)
    }
}

/// The statement end used for a family: transfers run through the trailing
/// semicolon, mints and burns through the `) ?` tail.
pub open spec fn spec_call_end(t: Seq<char>, kind: int) -> Option<int> {
    if kind == 0 {
        spec_call_end_semi(t, 0, 0, false)
    } else {
        spec_call_end_q(t, 0, 0, false)
    }
}

/// Every occurrence of one call pattern rewritten, scanning left to right.
pub open spec fn spec_rewrite_calls(
    s: Seq<char>,
    pat: Seq<char>,
    kind: int,
    with_signer: bool,
) -> Seq<char>
    decreases s.len(),
    via spec_rewrite_calls_decreases
{
    if pat.len() == 0 {
        s
    } else {
        match find_from(s, pat, 0) {
            None => s,
            Some(st) => match spec_call_end(s.skip(st), kind) {
                None => s,
                Some(end) => if 1 <= end <= s.len() - st {
                    s.subrange(0, st) + spec_rewrite_one(s.subrange(st, st + end), kind, with_signer)
                        + spec_rewrite_calls(s.skip(st + end), pat, kind, with_signer)
                } else {
                    s
                },
            },
        }
    }
}

#[via_fn]
proof fn spec_rewrite_calls_decreases(s: Seq<char>, pat: Seq<char>, kind: int, with_signer: bool) {
    if pat.len() > 0 && find_from(s, pat, 0) is Some {
        crate::text::lemma_find_from_some(s, pat, 0);
    }
}

fn rewrite_calls(v: &Vec<char>, pat: &Vec<char>, kind: usize, with_signer: bool) -> (r: Vec<char>)
    requires
        kind < 3,
    ensures
        r@ == spec_rewrite_calls(v@, pat@, kind as int, with_signer),
    decreases v@.len(),
{
    if pat.len() == 0 {
        return crate::text::clone_of(v);
    }
    let n = v.len();
    match find_in(v, pat, 0) {
        None => crate::text::clone_of(v),
        Some(st) => {
            proof {
                crate::text::lemma_find_from_some(v@, pat@, 0);
            }
            let t = slice_of(v, st, n);
            assert(t@ =~= v@.skip(st as int));
            let end_opt = if kind == 0 {
                call_end_semi(&t)
            } else {
                call_end_q(&t)
            };
            match end_opt {
                None => crate::text::clone_of(v),
                Some(end) => {
                    proof {
                        if kind == 0 {
                            lemma_call_end_semi_bounds(v@.skip(st as int), 0, 0, false);
                        } else {
                            lemma_call_end_q_bounds(v@.skip(st as int), 0, 0, false);
                        }
                    }
                    if 1 <= end && end <= n - st {
                        let full = slice_of(v, st, st + end);
                        assert(full@ =~= v@.subrange(st as int, st + end));
                        let repl = if kind == 0 {
                            single_transfer(&full, with_signer)
                        } else if kind == 1 {
                            single_mint(&full)
                        } else {
                            single_burn(&full)
                        };
                        let mut out = slice_of(v, 0, st);
                        append_all(&mut out, &repl);
                        let tail = slice_of(v, st + end, n);
                        assert(tail@ =~= v@.skip(st + end));
                        let rest = rewrite_calls(&tail, pat, kind, with_signer);
                        append_all(&mut out, &rest);
                        out
                    } else {
                        crate::text::clone_of(v)
                    }
                },
            }
        },
    }
}

/// The token-transfer rewriting pass: spacing normalized, then the
/// unsigned and signer call shapes rewritten.
pub open spec fn spec_token_transfer_pass(s: Seq<char>) -> Seq<char> {
    let s1 = replace_seq(s, "token :: transfer"@, "token::transfer"@);
    let s2 = replace_seq(s1, "CpiContext :: new_with_signer"@, "CpiContext::new_with_signer"@);
    let s3 = replace_seq(s2, "CpiContext :: new"@, "CpiContext::new"@);
    let s4 = spec_rewrite_calls(s3, "token::transfer (CpiContext::new ("@, 0, false);
    let s5 = spec_rewrite_calls(s4, "token::transfer(CpiContext::new("@, 0, false);
    let s6 = spec_rewrite_calls(s5, "token::transfer (CpiContext::new_with_signer ("@, 0, true);
    spec_rewrite_calls(s6, "token::transfer(CpiContext::new_with_signer("@, 0, true)
}

fn transform_token_transfer(v: &Vec<char>) -> (r: Vec<char>)
    ensures
        r@ == spec_token_transfer_pass(v@),
{
    let mut cur = replace_str(v, "token :: transfer", "token::transfer");
    cur = replace_str(&cur, "CpiContext :: new_with_signer", "CpiContext::new_with_signer");
    cur = replace_str(&cur, "CpiContext :: new", "CpiContext::new");
    let p1 = chars_of("token::transfer (CpiContext::new (");
    cur = rewrite_calls(&cur, &p1, 0, false);
    let p2 = chars_of("token::transfer(CpiContext::new(");
    cur = rewrite_calls(&cur, &p2, 0, false);
    let p3 = chars_of("token::transfer (CpiContext::new_with_signer (");
    cur = rewrite_calls(&cur, &p3, 0, true);
    let p4 = chars_of("token::transfer(CpiContext::new_with_signer(");
    cur = rewrite_calls(&cur, &p4, 0, true);
    cur
}

/// The token-mint rewriting pass.
pub open spec fn spec_token_mint_pass(s: Seq<char>) -> Seq<char> {
    let s1 = replace_seq(s, "token :: mint_to"@, "token::mint_to"@);
    let s2 = spec_rewrite_calls(s1, "token::mint_to (CpiContext::new_with_signer ("@, 1, true);
    spec_rewrite_calls(s2, "token::mint_to(CpiContext::new_with_signer("@, 1, true)
}

fn transform_token_mint_to(v: &Vec<char>) -> (r: Vec<char>)
    ensures
        r@ == spec_token_mint_pass(v@),
{
    let mut cur = replace_str(v, "token :: mint_to", "token::mint_to");
    let p1 = chars_of("token::mint_to (CpiContext::new_with_signer (");
    cur = rewrite_calls(&cur, &p1, 1, true);
    let p2 = chars_of("token::mint_to(CpiContext::new_with_signer(");
    cur = rewrite_calls(&cur, &p2, 1, true);
    cur
}

/// The token-burn rewriting pass.
pub open spec fn spec_token_burn_pass(s: Seq<char>) -> Seq<char> {
    let s1 = replace_seq(s, "token :: burn"@, "token::burn"@);
    let s2 = spec_rewrite_calls(s1, "token::burn (CpiContext::new_with_signer ("@, 2, false);
    let s3 = spec_rewrite_calls(s2, "token::burn(CpiContext::new_with_signer("@, 2, false);
    let s4 = spec_rewrite_calls(s3, "token::burn (CpiContext::new ("@, 2, false);
    spec_rewrite_calls(s4, "token::burn(CpiContext::new("@, 2, false)
}

fn transform_token_burn(v: &Vec<char>) -> (r: Vec<char>)
    ensures
        r@ == spec_token_burn_pass(v@),
{
    let mut cur = replace_str(v, "token :: burn", "token::burn");
    let p1 = chars_of("token::burn (CpiContext::new_with_signer (");
    cur = rewrite_calls(&cur, &p1, 2, false);
    let p2 = chars_of("token::burn(CpiContext::new_with_signer(");
    cur = rewrite_calls(&cur, &p2, 2, false);
    let p3 = chars_of("token::burn (CpiContext::new (");
    cur = rewrite_calls(&cur, &p3, 2, false);
    let p4 = chars_of("token::burn(CpiContext::new(");
    cur = rewrite_calls(&cur, &p4, 2, false);
    cur
}

/// Account-creation and native-transfer call openings rewritten to the
/// target convention, and borrow-style balance access modernized.
pub open spec fn spec_system_passes(s: Seq<char>) -> Seq<char> {
    let s1 = replace_seq(
        s,
        "system_program::create_account("@,
        "// Pinocchio create_account\n    pinocchio_system::instructions::CreateAccount {\n        from: "@,
    );
    let s2 = replace_seq(
        s1,
        "system_program::transfer("@,
        "// Pinocchio SOL transfer\n    pinocchio_system::instructions::Transfer {\n        from: "@,
    );
    let s3 = replace_seq(s2, ".lamports.borrow_mut()"@, ".try_borrow_mut_lamports()?"@);
    replace_seq(s3, ".lamports.borrow()"@, ".try_borrow_lamports()?"@)
}

fn system_passes(v: &Vec<char>) -> (r: Vec<char>)
    ensures
        r@ == spec_system_passes(v@),
{
    let mut cur = replace_str(
        v,
        "system_program::create_account(",
        "// Pinocchio create_account\n    pinocchio_system::instructions::CreateAccount {\n        from: ",
    );
    cur = replace_str(
        &cur,
        "system_program::transfer(",
        "// Pinocchio SOL transfer\n    pinocchio_system::instructions::Transfer {\n        from: ",
    );
    cur = replace_str(&cur, ".lamports.borrow_mut()", ".try_borrow_mut_lamports()?");
    cur = replace_str(&cur, ".lamports.borrow()", ".try_borrow_lamports()?");
    cur
}

/// The whole call-rewriting pass: transfers, mints, burns, then the system
/// call openings and balance access.
pub open spec fn spec_transform_cpi_calls(s: Seq<char>) -> Seq<char> {
    spec_system_passes(spec_token_burn_pass(spec_token_mint_pass(spec_token_transfer_pass(s))))
}

fn transform_cpi_calls(v: &Vec<char>) -> (r: Vec<char>)
    ensures
        r@ == spec_transform_cpi_calls(v@),
{
    let s1 = transform_token_transfer(v);
    let s2 = transform_token_mint_to(&s1);
    let s3 = transform_token_burn(&s2);
    system_passes(&s3)
}

/// One native-asset transfer call inlined as direct balance arithmetic,
/// when its pieces can be read; else the ordinary opening rewrite.
pub open spec fn spec_system_transfer_inline(s: Seq<char>) -> Seq<char> {
    let fallback = replace_seq(
        s,
        "system_program::transfer("@,
        "// Pinocchio SOL transfer\n    pinocchio_system::instructions::Transfer {\n        from: "@,
    );
    match find_from(s, "system_program::transfer"@, 0) {
        None => fallback,
        Some(start) => match find_from(s.skip(start), "Transfer {"@, 0) {
            None => fallback,
            Some(trel) => {
                let ss = start + trel;
                match spec_match_brace(s.skip(ss), 0, 0) {
                    None => fallback,
                    Some(be) => {
                        let tstruct = s.subrange(ss, ss + be + 1);
                        let from = spec_extract_field(tstruct, "from"@);
                        let to = spec_extract_field(tstruct, "to"@);
                        if from.len() > 0 && to.len() > 0 {
                            match find_from(s.skip(start), ")?"@, 0) {
                                None => fallback,
                                Some(ce) => {
                                    let full = s.subrange(start, start + ce + 2);
                                    replace_seq(
                                        s,
                                        full,
                                        crate::cpi_helpers::spec_sol_transfer_cpi(
                                            spec_clean_name(from),
                                            spec_clean_name(to),
                                            "amount"@,
                                        ),
                                    )
                                },
                            }
                        } else {
                            fallback
                        }
                    },
                }
            },
        },
    }
}

fn transform_system_transfer_inline(v: &Vec<char>) -> (r: Vec<char>)
    ensures
        r@ == spec_system_transfer_inline(v@),
{
    let n = v.len();
    let p0 = chars_of("system_program::transfer");
    let pt = chars_of("Transfer {");
    let pc = chars_of(")?");
    match find_in(v, &p0, 0) {
        None => system_transfer_fallback(v),
        Some(start) => {
            proof {
                crate::text::lemma_find_from_some(v@, "system_program::transfer"@, 0);
            }
            let t1 = slice_of(v, start, n);
            assert(t1@ =~= v@.skip(start as int));
            match find_in(&t1, &pt, 0) {
                None => system_transfer_fallback(v),
                Some(trel) => {
                    proof {
                        crate::text::lemma_find_from_some(v@.skip(start as int), "Transfer {"@, 0);
                    }
                    let ss = start + trel;
                    let t2 = slice_of(v, ss, n);
                    assert(t2@ =~= v@.skip(ss as int));
                    match find_matching_brace(&t2) {
                        None => system_transfer_fallback(v),
                        Some(be) => {
                            proof {
                                lemma_match_brace_bounds(v@.skip(ss as int), 0, 0);
                            }
                            let tstruct = slice_of(v, ss, ss + be + 1);
                            assert(tstruct@ =~= v@.subrange(ss as int, ss + be + 1));
                            let from = extract_field(&tstruct, "from");
                            let to = extract_field(&tstruct, "to");
                            if from.len() > 0 && to.len() > 0 {
                                match find_in(&t1, &pc, 0) {
                                    None => system_transfer_fallback(v),
                                    Some(ce) => {
                                        proof {
                                            crate::text::lemma_find_from_some(
                                                v@.skip(start as int),
                                                ")?"@,
                                                0,
                                            );
                                            reveal_strlit(")?");
                                        }
                                        let full = slice_of(v, start, start + ce + 2);
                                        assert(full@ =~= v@.subrange(
                                            start as int,
                                            start + ce + 2,
                                        ));
                                        let fc = clean_account_name(&from);
                                        let tc = clean_account_name(&to);
                                        let code = crate::cpi_helpers::sol_transfer_cpi(
                                            string_of(&fc).as_str(),
                                            string_of(&tc).as_str(),
                                            "amount",
                                        );
                                        let codev = chars_of(code.as_str());
                                        replace_in(v, &full, &codev)
                                    },
                                }
                            } else {
                                system_transfer_fallback(v)
                            }
                        },
                    }
                },
            }
        },
    }
}

fn system_transfer_fallback(v: &Vec<char>) -> (r: Vec<char>)
    ensures
        r@ == replace_seq(
            v@,
            "system_program::transfer("@,
            "// Pinocchio SOL transfer\n    pinocchio_system::instructions::Transfer {\n        from: "@,
        ),
{
    replace_str(
        v,
        "system_program::transfer(",
        "// Pinocchio SOL transfer\n    pinocchio_system::instructions::Transfer {\n        from: ",
    )
}

/// The inlining variant of the call-rewriting pass: token calls rewritten,
/// the account-creation opening rewritten, native transfers inlined, and
/// balance access modernized.
pub open spec fn spec_inline_cpi_calls(s: Seq<char>) -> Seq<char> {
    let s1 = spec_token_burn_pass(spec_token_mint_pass(spec_token_transfer_pass(s)));
    let s2 = replace_seq(
        s1,
        "system_program::create_account("@,
        "// Pinocchio create_account\n    pinocchio_system::instructions::CreateAccount {\n        from: "@,
    );
    let s3 = spec_system_transfer_inline(s2);
    let s4 = replace_seq(s3, ".lamports.borrow_mut()"@, ".try_borrow_mut_lamports()?"@);
    replace_seq(s4, ".lamports.borrow()"@, ".try_borrow_lamports()?"@)
}

fn inline_cpi_calls(v: &Vec<char>) -> (r: Vec<char>)
    ensures
        r@ == spec_inline_cpi_calls(v@),
{
    let s1 = transform_token_transfer(v);
    let s2 = transform_token_mint_to(&s1);
    let s3 = transform_token_burn(&s2);
    let s4 = replace_str(
        &s3,
        "system_program::create_account(",
        "// Pinocchio create_account\n    pinocchio_system::instructions::CreateAccount {\n        from: ",
    );
    let s5 = transform_system_transfer_inline(&s4);
    let s6 = replace_str(&s5, ".lamports.borrow_mut()", ".try_borrow_mut_lamports()?");
    replace_str(&s6, ".lamports.borrow()", ".try_borrow_lamports()?")
}

// ------------------------------------------------------------------
// Signer-seed fixes and allocation removal
// ------------------------------------------------------------------

/// The first period-seed declaration the pattern matcher finds: the whole
/// matched declaration and its captured bump expression, if one was
/// captured.
pub uninterp spec fn period_seeds_caps(s: Seq<char>) -> Option<(Seq<char>, Option<Seq<char>>)>;

/// Relies on regex::Regex::captures with the pattern matching
/// `let period_seeds = & [b"farming_period".as_ref (), pool_key.as_ref (),
/// start_time_bytes.as_ref (), &[BUMP],] ;` where BUMP is captured: yields
/// the whole match and the bump group.  The match depends on the text alone.
#[verifier::external_body]
fn period_seeds_caps_x(s: &str) -> (r: Option<(String, Option<String>)>)
    ensures
        match r {
            Some(c) => period_seeds_caps(s@) is Some && c.0@ == period_seeds_caps(
                s@,
            )->Some_0.0 && (match c.1 {
                Some(b) => period_seeds_caps(s@)->Some_0.1 is Some && b@ == period_seeds_caps(
                    s@,
                )->Some_0.1->Some_0,
                None => period_seeds_caps(s@)->Some_0.1 is None,
            }),
            None => period_seeds_caps(s@) is None,
        },
{
    let pat = r#"let period_seeds = &?\s*\[b"farming_period"\.as_ref \(\s*\)\s*,\s*pool_key\.as_ref \(\s*\)\s*,\s*start_time_bytes\.as_ref \(\s*\)\s*,\s*&\[([^\]]+)\]\s*,?\s*\]\s*;"#;
    match regex::Regex::new(pat) {
        Ok(re) => match re.captures(s) {
            Some(caps) => {
                let full = caps.get(0).map(|m| m.as_str()).unwrap_or("").to_string();
                let bump = caps.get(1).map(|m| m.as_str().to_string());
                Some((full, bump))
            },
            None => None,
        },
        Err(_) => None,
    }
}

/// The period-seed declaration rewritten to bound seed values, when the
/// declaration is present and matches.
pub open spec fn spec_period_seeds_fix(s: Seq<char>) -> Seq<char> {
    if contains_seq(s, "let period_seeds = & [b\"farming_period\""@) || contains_seq(
        s,
        "let period_seeds = [b\"farming_period\""@,
    ) {
        match period_seeds_caps(s) {
            Some(c) => {
                let bump = match c.1 {
                    Some(b) => b,
                    None => "farming_period_state.bump"@,
                };
                replace_seq(
                    s,
                    c.0,
                    "let period_bump_bytes = ["@ + bump
                        + "];\n    let period_seeds = [\n        pinocchio::instruction::Seed::from(b\"farming_period\" as &[u8]),\n        pinocchio::instruction::Seed::from(pool_key.as_ref()),\n        pinocchio::instruction::Seed::from(start_time_bytes.as_ref()),\n        pinocchio::instruction::Seed::from(&period_bump_bytes as &[u8]),\n    ];"@,
                )
            },
            None => s,
        }
    } else {
        s
    }
}

/// Repeated uses of the signer value cloned, so each use keeps the original
/// alive.
pub open spec fn spec_fix_multiple_signers(s: Seq<char>) -> Seq<char> {
    if count_seq(s, ".invoke_signed(&[signer])?"@) > 1 {
        replace_seq(s, ".invoke_signed(&[signer])?"@, ".invoke_signed(&[signer.clone()])?"@)
    } else {
        s
    }
}

/// The signer-seed pass: known seed declarations rewritten to the target
/// signer convention, bump references routed through the state handle, and
/// repeated signer uses cloned.
pub open spec fn spec_fix_signer_seeds(s: Seq<char>) -> Seq<char> {
    let s1 = replace_seq(
        s,
        "let pool_seeds = & [b\"pool\".as_ref (), & [pool_bump]] ;"@,
        "let pool_bump_bytes = [pool_state.bump];\nlet pool_seeds = pinocchio::seeds!(b\"pool\", &pool_bump_bytes);"@,
    );
    let s2 = replace_seq(
        s1,
        "let signer_seeds = & [& pool_seeds [..]] ;"@,
        "let signer = pinocchio::instruction::Signer::from(&pool_seeds);"@,
    );
    let s3 = replace_seq(s2, "& [period_bump]"@, "&[farming_period_state.bump]"@);
    let s4 = replace_seq(s3, "& [pool_bump]"@, "&[pool_state.bump]"@);
    let s5 = replace_seq(s4, "pool_bump]"@, "pool_state.bump]"@);
    let s6 = replace_seq(s5, ".invoke_signed(signer_seeds)?"@, ".invoke_signed(&[signer])?"@);
    let s7 = if contains_seq(s6, "& [& period_seeds [..]]"@) {
        replace_seq(
            s6,
            "let signer_seeds = & [& period_seeds [..]] ;"@,
            "let signer = pinocchio::instruction::Signer::from(&period_seeds);"@,
        )
    } else {
        s6
    };
    let s8 = spec_period_seeds_fix(s7);
    let s9 = if contains_seq(s8, "period_seeds = & ["@) {
        replace_seq(s8, "period_seeds = & ["@, "period_seeds = ["@)
    } else {
        s8
    };
    spec_fix_multiple_signers(s9)
}

fn fix_signer_seeds(v: &Vec<char>) -> (r: Vec<char>)
    ensures
        r@ == spec_fix_signer_seeds(v@),
{
    let mut cur = replace_str(
        v,
        "let pool_seeds = & [b\"pool\".as_ref (), & [pool_bump]] ;",
        "let pool_bump_bytes = [pool_state.bump];\nlet pool_seeds = pinocchio::seeds!(b\"pool\", &pool_bump_bytes);",
    );
    cur = replace_str(
        &cur,
        "let signer_seeds = & [& pool_seeds [..]] ;",
        "let signer = pinocchio::instruction::Signer::from(&pool_seeds);",
    );
    cur = replace_str(&cur, "& [period_bump]", "&[farming_period_state.bump]");
    cur = replace_str(&cur, "& [pool_bump]", "&[pool_state.bump]");
    cur = replace_str(&cur, "pool_bump]", "pool_state.bump]");
    cur = replace_str(&cur, ".invoke_signed(signer_seeds)?", ".invoke_signed(&[signer])?");
    let marker = chars_of("& [& period_seeds [..]]");
    if contains_in(&cur, &marker) {
        cur = replace_str(
            &cur,
            "let signer_seeds = & [& period_seeds [..]] ;",
            "let signer = pinocchio::instruction::Signer::from(&period_seeds);",
        );
    }
    let m1 = chars_of("let period_seeds = & [b\"farming_period\"");
    let m2 = chars_of("let period_seeds = [b\"farming_period\"");
    if contains_in(&cur, &m1) || contains_in(&cur, &m2) {
        match period_seeds_caps_x(string_of(&cur).as_str()) {
            Some(c) => {
                let bump: String = match c.1 {
                    Some(b) => b,
                    None => String::from_str("farming_period_state.bump"),
                };
                let full = chars_of(c.0.as_str());
                let mut repl = chars_of("let period_bump_bytes = [");
                append_str(&mut repl, bump.as_str());
                append_str(
                    &mut repl,
                    "];\n    let period_seeds = [\n        pinocchio::instruction::Seed::from(b\"farming_period\" as &[u8]),\n        pinocchio::instruction::Seed::from(pool_key.as_ref()),\n        pinocchio::instruction::Seed::from(start_time_bytes.as_ref()),\n        pinocchio::instruction::Seed::from(&period_bump_bytes as &[u8]),\n    ];",
                );
                cur = replace_in(&cur, &full, &repl);
            },
            None => {},
        }
    }
    let m3 = chars_of("period_seeds = & [");
    if contains_in(&cur, &m3) {
        cur = replace_str(&cur, "period_seeds = & [", "period_seeds = [");
    }
    let invoke = chars_of(".invoke_signed(&[signer])?");
    let cnt = crate::text::count_in(&cur, &invoke);
    if cnt > 1 {
        cur = replace_str(&cur, ".invoke_signed(&[signer])?", ".invoke_signed(&[signer.clone()])?");
    }
    cur
}

// ------------------------------------------------------------------
// Diagnostic stripping
// ------------------------------------------------------------------

/// First non-whitespace index at or after `i`.
pub open spec fn skip_ws_from(s: Seq<char>, i: int) -> int
    decreases s.len() - i,
{
    if 0 <= i < s.len() && crate::idl::is_ws(s[i]) {
        skip_ws_from(s, i + 1)
    } else {
        i
    }
}

/// The skip stays within the text.
pub proof fn lemma_skip_ws_bounds(s: Seq<char>, i: int)
    requires
        0 <= i <= s.len(),
    ensures
        i <= skip_ws_from(s, i) <= s.len(),
    decreases s.len() - i,
{
    if i < s.len() && crate::idl::is_ws(s[i]) {
        lemma_skip_ws_bounds(s, i + 1);
    }
}

/// The index of the opening parenthesis when a diagnostic call opens at
/// `i`: the letters `msg`, then optional whitespace, `!`, optional
/// whitespace, and `(`.
pub open spec fn spec_msg_open(s: Seq<char>, i: int) -> Option<int> {
    if match_at(s, "msg"@, i) {
        let a = skip_ws_from(s, i + 3);
        if a < s.len() && s[a] == '!' {
            let b = skip_ws_from(s, a + 1);
            if b < s.len() && s[b] == '(' {
                Some(b)
            } else {
                None
            }
        } else {
            None
        }
    } else {
        None
    }
}

/// A complete diagnostic call remains somewhere in `s`: an opening whose
/// parenthesis is balanced by a close.
pub open spec fn spec_has_msg_call(s: Seq<char>) -> bool {
    exists|i: int|
        (#[trigger] spec_msg_open(s, i)) is Some && spec_match_paren(
            s.skip(spec_msg_open(s, i)->Some_0),
            0,
            0,
        ) is Some
}

/// One stripping sweep over `s` from `i`: every complete diagnostic call is
/// removed through its balanced close and the whitespace-then-semicolon
/// tail; everything else is kept.
pub open spec fn spec_strip_sweep(s: Seq<char>, i: int) -> Seq<char>
    decreases s.len() - i,
    via spec_strip_sweep_decreases
{
    if i < 0 || i >= s.len() {
        Seq::empty()
    } else {
        match spec_msg_open(s, i) {
            Some(b) => match spec_match_paren(s.skip(b), 0, 0) {
                None => seq![s[i]] + spec_strip_sweep(s, i + 1),
                Some(rel) => {
                    let close = b + rel;
                    let k = skip_ws_from(s, close + 1);
                    let resume: int = if k < s.len() && s[k] == ';' {
                        k + 1
                    } else {
                        k
                    };
                    spec_strip_sweep(s, resume)
                },
            },
            None => seq![s[i]] + spec_strip_sweep(s, i + 1),
        }
    }
}

proof fn lemma_msg_open_bounds(s: Seq<char>, i: int)
    requires
        0 <= i,
        spec_msg_open(s, i) is Some,
    ensures
        i + 4 <= spec_msg_open(s, i)->Some_0 < s.len(),
        s[spec_msg_open(s, i)->Some_0] == '(',
{
    reveal_strlit("msg");
    lemma_skip_ws_bounds(s, i + 3);
    let a = skip_ws_from(s, i + 3);
    lemma_skip_ws_bounds(s, a + 1);
}

#[via_fn]
proof fn spec_strip_sweep_decreases(s: Seq<char>, i: int) {
    if 0 <= i < s.len() && spec_msg_open(s, i) is Some {
        lemma_msg_open_bounds(s, i);
        let b = spec_msg_open(s, i)->Some_0;
        if spec_match_paren(s.skip(b), 0, 0) is Some {
            lemma_match_paren_bounds(s.skip(b), 0, 0);
            let close = b + spec_match_paren(s.skip(b), 0, 0)->Some_0;
            lemma_skip_ws_bounds(s, close + 1);
        }
    }
}

/// A sweep never lengthens the text, and a sweep that keeps the length kept
/// every character.
pub proof fn lemma_sweep_len(s: Seq<char>, i: int)
    requires
        0 <= i <= s.len(),
    ensures
        spec_strip_sweep(s, i).len() <= s.len() - i,
        spec_strip_sweep(s, i).len() == s.len() - i ==> spec_strip_sweep(s, i) == s.skip(i),
    decreases s.len() - i,
{
    if i < s.len() {
        if spec_msg_open(s, i) is Some && spec_match_paren(
            s.skip(spec_msg_open(s, i)->Some_0),
            0,
            0,
        ) is Some {
            lemma_msg_open_bounds(s, i);
            let b = spec_msg_open(s, i)->Some_0;
            lemma_match_paren_bounds(s.skip(b), 0, 0);
            let close = b + spec_match_paren(s.skip(b), 0, 0)->Some_0;
            lemma_skip_ws_bounds(s, close + 1);
            let k = skip_ws_from(s, close + 1);
            let resume: int = if k < s.len() && s[k] == ';' {
                k + 1
            } else {
                k
            };
            lemma_sweep_len(s, resume);
        } else {
            lemma_sweep_len(s, i + 1);
            if spec_strip_sweep(s, i).len() == s.len() - i {
                assert(spec_strip_sweep(s, i + 1) == s.skip(i + 1));
                assert(seq![s[i]] + s.skip(i + 1) =~= s.skip(i));
            }
        }
    } else {
        assert(s.skip(i) =~= Seq::<char>::empty());
    }
}

/// A text a sweep leaves unchanged holds no complete diagnostic call.
pub proof fn lemma_sweep_fixpoint_clean(s: Seq<char>)
    requires
        spec_strip_sweep(s, 0) == s,
    ensures
        !spec_has_msg_call(s),
{
    assert(s.skip(0) =~= s);
    lemma_sweep_clean_from(s, 0);
    if spec_has_msg_call(s) {
        let m = choose|m: int|
            (#[trigger] spec_msg_open(s, m)) is Some && spec_match_paren(
                s.skip(spec_msg_open(s, m)->Some_0),
                0,
                0,
            ) is Some;
        assert(m >= 0);
    }
}

proof fn lemma_sweep_clean_from(s: Seq<char>, i: int)
    requires
        0 <= i <= s.len(),
        spec_strip_sweep(s, i) == s.skip(i),
    ensures
        forall|m: int|
            i <= m ==> !((#[trigger] spec_msg_open(s, m)) is Some && spec_match_paren(
                s.skip(spec_msg_open(s, m)->Some_0),
                0,
                0,
            ) is Some),
    decreases s.len() - i,
{
    if i < s.len() {
        if spec_msg_open(s, i) is Some && spec_match_paren(
            s.skip(spec_msg_open(s, i)->Some_0),
            0,
            0,
        ) is Some {
            lemma_msg_open_bounds(s, i);
            let b = spec_msg_open(s, i)->Some_0;
            lemma_match_paren_bounds(s.skip(b), 0, 0);
            let close = b + spec_match_paren(s.skip(b), 0, 0)->Some_0;
            lemma_skip_ws_bounds(s, close + 1);
            let k = skip_ws_from(s, close + 1);
            let resume: int = if k < s.len() && s[k] == ';' {
                k + 1
            } else {
                k
            };
            lemma_sweep_len(s, resume);
            assert(spec_strip_sweep(s, i).len() <= s.len() - resume);
            assert(s.skip(i).len() == s.len() - i);
            assert(false);
        } else {
            assert(spec_strip_sweep(s, i) == seq![s[i]] + spec_strip_sweep(s, i + 1));
            assert(spec_strip_sweep(s, i + 1) =~= s.skip(i + 1)) by {
                assert forall|t: int|
                    0 <= t < spec_strip_sweep(s, i + 1).len() implies #[trigger] spec_strip_sweep(
                    s,
                    i + 1,
                )[t] == s.skip(i + 1)[t] by {
                    assert(spec_strip_sweep(s, i)[t + 1] == spec_strip_sweep(s, i + 1)[t]);
                    assert(s.skip(i)[t + 1] == s.skip(i + 1)[t]);
                }
            }
            lemma_sweep_clean_from(s, i + 1);
        }
    } else {
        assert forall|m: int| i <= m implies !((#[trigger] spec_msg_open(s, m)) is Some
            && spec_match_paren(s.skip(spec_msg_open(s, m)->Some_0), 0, 0) is Some) by {
            if spec_msg_open(s, m) is Some {
                if m >= 0 {
                    lemma_msg_open_bounds(s, m);
                } else {
                    reveal_strlit("msg");
                }
            }
        }
    }
}

/// Sweeps applied until the text no longer changes.
pub open spec fn spec_strip_fix(s: Seq<char>) -> Seq<char>
    decreases s.len(),
    via spec_strip_fix_decreases
{
    let r = spec_strip_sweep(s, 0);
    if r == s {
        s
    } else {
        spec_strip_fix(r)
    }
}

#[via_fn]
proof fn spec_strip_fix_decreases(s: Seq<char>) {
    lemma_sweep_len(s, 0);
    let r = spec_strip_sweep(s, 0);
    if r != s && r.len() == s.len() {
        assert(r == s.skip(0));
        assert(s.skip(0) =~= s);
    }
}

/// The fixed point holds no complete diagnostic call.
pub proof fn lemma_strip_fix_clean(s: Seq<char>)
    ensures
        spec_strip_sweep(spec_strip_fix(s), 0) == spec_strip_fix(s),
        !spec_has_msg_call(spec_strip_fix(s)),
    decreases s.len(),
{
    lemma_sweep_len(s, 0);
    let r = spec_strip_sweep(s, 0);
    if r == s {
        lemma_sweep_fixpoint_clean(s);
    } else {
        if r.len() == s.len() {
            assert(r == s.skip(0));
            assert(s.skip(0) =~= s);
        }
        lemma_strip_fix_clean(r);
    }
}

/// Count of line breaks in `s[i..e)`.
pub open spec fn count_nl(s: Seq<char>, i: int, e: int) -> int
    decreases e - i,
{
    if e <= i {
        0
    } else {
        count_nl(s, i, e - 1) + (if s[e - 1] == '\n' {
            1int
        } else {
            0int
        })
    }
}

/// Index of the last line break in `s[i..e)`.
pub open spec fn last_nl(s: Seq<char>, i: int, e: int) -> int
    decreases e - i,
{
    if e <= i {
        i - 1
    } else if s[e - 1] == '\n' {
        e - 1
    } else {
        last_nl(s, i, e - 1)
    }
}

proof fn lemma_last_nl_bounds(s: Seq<char>, i: int, e: int)
    requires
        i <= e,
        count_nl(s, i, e) >= 1,
    ensures
        i <= last_nl(s, i, e) < e,
        s[last_nl(s, i, e)] == '\n',
    decreases e - i,
{
    if e > i && s[e - 1] != '\n' {
        lemma_last_nl_bounds(s, i, e - 1);
    }
}

/// Blank runs collapsed: a whitespace run opening at a line break and
/// holding three or more line breaks becomes two line breaks, through its
/// last line break; scanning resumes after it.
pub open spec fn spec_collapse_blanks(s: Seq<char>, i: int) -> Seq<char>
    decreases s.len() - i,
    via spec_collapse_blanks_decreases
{
    if i < 0 || i >= s.len() {
        Seq::empty()
    } else if s[i] == '\n' {
        let e = skip_ws_from(s, i);
        if count_nl(s, i, e) >= 3 {
            "\n\n"@ + spec_collapse_blanks(s, last_nl(s, i, e) + 1)
        } else {
            seq![s[i]] + spec_collapse_blanks(s, i + 1)
        }
    } else {
        seq![s[i]] + spec_collapse_blanks(s, i + 1)
    }
}

#[via_fn]
proof fn spec_collapse_blanks_decreases(s: Seq<char>, i: int) {
    if 0 <= i < s.len() && s[i] == '\n' {
        lemma_skip_ws_bounds(s, i);
        let e = skip_ws_from(s, i);
        if count_nl(s, i, e) >= 3 {
            lemma_last_nl_bounds(s, i, e);
        }
    }
}

fn skip_ws_x(v: &Vec<char>, i: usize) -> (r: usize)
    requires
        i <= v@.len(),
    ensures
        r as int == skip_ws_from(v@, i as int),
        i <= r <= v@.len(),
{
    let n = v.len();
    let mut k = i;
    while k < n && (v[k] == ' ' || v[k] == '\t' || v[k] == '\n' || v[k] == '\r')
        invariant
            i <= k <= n,
            n == v@.len(),
            skip_ws_from(v@, i as int) == skip_ws_from(v@, k as int),
        decreases n - k,
    {
        k += 1;
    }
    k
}

fn msg_open_at(v: &Vec<char>, i: usize) -> (r: Option<usize>)
    ensures
        match r {
            Some(b) => spec_msg_open(v@, i as int) == Some(b as int) && i < b < v@.len(),
            None => spec_msg_open(v@, i as int) is None,
        },
{
    let n = v.len();
    let pat = chars_of("msg");
    if !crate::text::match_at_in(v, &pat, i) {
        return None;
    }
    proof {
        reveal_strlit("msg");
    }
    assert(i + 3 <= n);
    let a = skip_ws_x(v, i + 3);
    if !(a < v.len() && v[a] == '!') {
        return None;
    }
    let b = skip_ws_x(v, a + 1);
    if b < v.len() && v[b] == '(' {
        Some(b)
    } else {
        None
    }
}

fn strip_sweep(v: &Vec<char>) -> (r: Vec<char>)
    ensures
        r@ == spec_strip_sweep(v@, 0),
{
    let n = v.len();
    let mut out: Vec<char> = Vec::new();
    let mut i: usize = 0;
    while i < n
        invariant
            i <= n,
            n == v@.len(),
            spec_strip_sweep(v@, 0) == out@ + spec_strip_sweep(v@, i as int),
        decreases n - i,
    {
        let ghost pre = out@;
        match msg_open_at(v, i) {
            Some(b) => {
                let t = slice_of(v, b, n);
                assert(t@ =~= v@.skip(b as int));
                match find_matching_paren(&t) {
                    Some(rel) => {
                        proof {
                            lemma_match_paren_bounds(v@.skip(b as int), 0, 0);
                        }
                        let close = b + rel;
                        let k = skip_ws_x(v, close + 1);
                        let resume = if k < n && v[k] == ';' {
                            k + 1
                        } else {
                            k
                        };
                        assert(out@ + spec_strip_sweep(v@, resume as int) =~= pre
                            + spec_strip_sweep(v@, i as int));
                        i = resume;
                    },
                    None => {
                        out.push(v[i]);
                        assert(out@ + spec_strip_sweep(v@, i + 1) =~= pre + spec_strip_sweep(
                            v@,
                            i as int,
                        ));
                        i = i + 1;
                    },
                }
            },
            None => {
                out.push(v[i]);
                assert(out@ + spec_strip_sweep(v@, i + 1) =~= pre + spec_strip_sweep(
                    v@,
                    i as int,
                ));
                i = i + 1;
            },
        }
    }
    assert(spec_strip_sweep(v@, n as int) =~= Seq::<char>::empty());
    assert(out@ =~= out@ + spec_strip_sweep(v@, n as int));
    out
}

fn eq_chars(a: &Vec<char>, b: &Vec<char>) -> (r: bool)
    ensures
        r == (a@ == b@),
{
    if a.len() != b.len() {
        assert(a@ != b@);
        return false;
    }
    let n = a.len();
    for i in 0..n
        invariant
            n == a@.len(),
            n == b@.len(),
            forall|m: int| 0 <= m < i ==> a@[m] == b@[m],
    {
        if a[i] != b[i] {
            assert(a@ != b@);
            return false;
        }
    }
    assert(a@ =~= b@);
    true
}

fn strip_to_fixpoint(v: &Vec<char>) -> (r: Vec<char>)
    ensures
        r@ == spec_strip_fix(v@),
{
    let mut cur = crate::text::clone_of(v);
    loop
        invariant
            spec_strip_fix(v@) == spec_strip_fix(cur@),
        decreases cur@.len(),
    {
        proof {
            lemma_sweep_len(cur@, 0);
        }
        let next = strip_sweep(&cur);
        if eq_chars(&next, &cur) {
            return cur;
        }
        proof {
            if next@.len() == cur@.len() {
                assert(next@ == cur@.skip(0));
                assert(cur@.skip(0) =~= cur@);
            }
        }
        cur = next;
    }
}

fn collapse_blanks(v: &Vec<char>) -> (r: Vec<char>)
    ensures
        r@ == spec_collapse_blanks(v@, 0),
{
    let n = v.len();
    let mut out: Vec<char> = Vec::new();
    let mut i: usize = 0;
    while i < n
        invariant
            i <= n,
            n == v@.len(),
            spec_collapse_blanks(v@, 0) == out@ + spec_collapse_blanks(v@, i as int),
        decreases n - i,
    {
        let ghost pre = out@;
        if v[i] == '\n' {
            let e = skip_ws_x(v, i);
            let nls = count_nl_x(v, i, e);
            if nls >= 3 {
                proof {
                    lemma_last_nl_bounds(v@, i as int, e as int);
                }
                let l = last_nl_x(v, i, e);
                append_str(&mut out, "\n\n");
                assert(out@ + spec_collapse_blanks(v@, l + 1) =~= pre + spec_collapse_blanks(
                    v@,
                    i as int,
                ));
                i = l + 1;
            } else {
                out.push(v[i]);
                assert(out@ + spec_collapse_blanks(v@, i + 1) =~= pre + spec_collapse_blanks(
                    v@,
                    i as int,
                ));
                i = i + 1;
            }
        } else {
            out.push(v[i]);
            assert(out@ + spec_collapse_blanks(v@, i + 1) =~= pre + spec_collapse_blanks(
                v@,
                i as int,
            ));
            i = i + 1;
        }
    }
    assert(spec_collapse_blanks(v@, n as int) =~= Seq::<char>::empty());
    assert(out@ =~= out@ + spec_collapse_blanks(v@, n as int));
    out
}

fn count_nl_x(v: &Vec<char>, i: usize, e: usize) -> (r: usize)
    requires
        i <= e <= v@.len(),
    ensures
        r as int == count_nl(v@, i as int, e as int),
{
    let mut k = i;
    let mut c: usize = 0;
    while k < e
        invariant
            i <= k <= e <= v@.len(),
            c <= k - i,
            c as int == count_nl(v@, i as int, k as int),
        decreases e - k,
    {
        if v[k] == '\n' {
            c += 1;
        }
        k += 1;
    }
    c
}

fn last_nl_x(v: &Vec<char>, i: usize, e: usize) -> (r: usize)
    requires
        i <= e <= v@.len(),
        count_nl(v@, i as int, e as int) >= 1,
    ensures
        r as int == last_nl(v@, i as int, e as int),
        i <= r < e,
    decreases e - i,
{
    proof {
        lemma_last_nl_bounds(v@, i as int, e as int);
    }
    if v[e - 1] == '\n' {
        e - 1
    } else {
        last_nl_x(v, i, e - 1)
    }
}

/// Stripping is internally idempotent: running the sweeps on their own
/// fixed point changes nothing.
pub proof fn lemma_strip_idempotent(s: Seq<char>)
    ensures
        spec_strip_fix(spec_strip_fix(s)) == spec_strip_fix(s),
{
    lemma_strip_fix_clean(s);
}

/// The diagnostic-stripping pass under the no-logs option: blank runs
/// collapsed, then stripping sweeps applied until they change nothing —
/// so no complete diagnostic call remains in the result, whatever the
/// input.  Collapsing runs first keeps the fixed-point guarantee
/// unconditional.
pub open spec fn spec_strip_msg_calls(s: Seq<char>) -> Seq<char> {
    spec_strip_fix(spec_collapse_blanks(s, 0))
}

fn strip_msg_calls(v: &Vec<char>) -> (r: Vec<char>)
    ensures
        r@ == spec_strip_msg_calls(v@),
        !spec_has_msg_call(r@),
{
    let collapsed = collapse_blanks(v);
    let r = strip_to_fixpoint(&collapsed);
    proof {
        lemma_strip_fix_clean(collapsed@);
    }
    r
}

/// The first bounded-capacity constructor declaration the pattern matcher
/// finds: the whole declaration and the bound variable's name.
pub uninterp spec fn cap_decl_caps(s: Seq<char>) -> Option<(Seq<char>, Seq<char>)>;

/// Relies on regex::Regex::captures with the pattern
/// `let\s+mut\s+(\w+)\s*=\s*Vec\s*::\s*with_capacity\s*\(\s*(\d+)\s*\)\s*;`:
/// yields the whole match and the variable name.  The match depends on the
/// text alone.
#[verifier::external_body]
fn cap_decl_caps_x(s: &str) -> (r: Option<(String, String)>)
    ensures
        match r {
            Some(c) => cap_decl_caps(s@) is Some && c.0@ == cap_decl_caps(s@)->Some_0.0 && c.1@
                == cap_decl_caps(s@)->Some_0.1,
            None => cap_decl_caps(s@) is None,
        },
{
    match regex::Regex::new(r#"let\s+mut\s+(\w+)\s*=\s*Vec\s*::\s*with_capacity\s*\(\s*(\d+)\s*\)\s*;"#) {
        Ok(re) => match re.captures(s) {
            Some(caps) => {
                let full = caps.get(0).map(|m| m.as_str()).unwrap_or("").to_string();
                let var = caps.get(1).map(|m| m.as_str()).unwrap_or("").to_string();
                Some((full, var))
            },
            None => None,
        },
        Err(_) => None,
    }
}

/// The first byte-append call on the named buffer rewritten by the pattern
/// matcher to the given replacement: a function of the arguments alone.
pub uninterp spec fn extend_rewrite(s: Seq<char>, field: Seq<char>, var: Seq<char>, repl: Seq<char>) -> Seq<char>;

/// Relies on regex::Regex::replace with the pattern
/// `VAR\s*\.\s*extend_from_slice\s*\(\s*&\s*FIELD...\)\s*;` built from
/// the escaped buffer name and field expression: rewrites the first such
/// append to the replacement, as a function of the arguments alone.
#[verifier::external_body]
fn extend_rewrite_x(s: &str, field: &str, var: &str, repl: &str) -> (r: String)
    ensures
        r@ == extend_rewrite(s@, field@, var@, repl@),
{
    let pat = format!(r"{}\s*\.\s*extend_from_slice\s*\(\s*&\s*{}\s*\)\s*;", regex::escape(var), field);
    match regex::Regex::new(&pat) {
        Ok(re) => re.replace(s, repl).to_string(),
        Err(_) => s.to_string(),
    }
}

/// The allocation-removal pass: a bounded-capacity buffer declaration
/// becomes a fixed byte array, and its byte appends become offset copies.
pub open spec fn spec_replace_vec_with_array(s: Seq<char>) -> Seq<char> {
    match cap_decl_caps(s) {
        None => s,
        Some(c) => {
            let var = c.1;
            let s1 = replace_seq(s, c.0, "let mut "@ + var + " = [0u8; 48];"@);
            let s2 = extend_rewrite(
                s1,
                "target_amplification\\s*\\.\\s*to_le_bytes\\s*\\(\\s*\\)"@,
                var,
                var + "[0..8].copy_from_slice(&target_amplification.to_le_bytes());"@,
            );
            let s3 = extend_rewrite(
                s2,
                "ramp_duration\\s*\\.\\s*to_le_bytes\\s*\\(\\s*\\)"@,
                var,
                var + "[8..16].copy_from_slice(&ramp_duration.to_le_bytes());"@,
            );
            extend_rewrite(
                s3,
                "salt"@,
                var,
                var + "[16..48].copy_from_slice(&salt);"@,
            )
        },
    }
}

fn replace_vec_with_array(v: &Vec<char>) -> (r: Vec<char>)
    ensures
        r@ == spec_replace_vec_with_array(v@),
{
    match cap_decl_caps_x(string_of(v).as_str()) {
        None => crate::text::clone_of(v),
        Some(c) => {
            let full = chars_of(c.0.as_str());
            let var = chars_of(c.1.as_str());
            let mut decl = chars_of("let mut ");
            append_all(&mut decl, &var);
            append_str(&mut decl, " = [0u8; 48];");
            let s1 = replace_in(v, &full, &decl);
            let mut r1 = crate::text::clone_of(&var);
            append_str(&mut r1, "[0..8].copy_from_slice(&target_amplification.to_le_bytes());");
            let s2 = extend_rewrite_x(
                string_of(&s1).as_str(),
                "target_amplification\\s*\\.\\s*to_le_bytes\\s*\\(\\s*\\)",
                c.1.as_str(),
                string_of(&r1).as_str(),
            );
            let mut r2 = crate::text::clone_of(&var);
            append_str(&mut r2, "[8..16].copy_from_slice(&ramp_duration.to_le_bytes());");
            let s3 = extend_rewrite_x(
                s2.as_str(),
                "ramp_duration\\s*\\.\\s*to_le_bytes\\s*\\(\\s*\\)",
                c.1.as_str(),
                string_of(&r2).as_str(),
            );
            let mut r3 = crate::text::clone_of(&var);
            append_str(&mut r3, "[16..48].copy_from_slice(&salt);");
            let s4 = extend_rewrite_x(s3.as_str(), "salt", c.1.as_str(), string_of(&r3).as_str());
            chars_of(s4.as_str())
        },
    }
}

// ------------------------------------------------------------------
// The body rewrite pipeline
// ------------------------------------------------------------------

/// Context-object account references flattened, for the sorted names from
/// `i` on.
pub open spec fn spec_replace_ctx_accounts(s: Seq<char>, sorted: Seq<Seq<char>>, i: int) -> Seq<
    char,
>
    decreases sorted.len() - i,
{
    if i < 0 || i >= sorted.len() {
        s
    } else {
        let name = sorted[i];
        let s1 = replace_seq(s, "ctx . accounts . "@ + name, name);
        let s2 = replace_seq(s1, "ctx.accounts."@ + name, name);
        spec_replace_ctx_accounts(s2, sorted, i + 1)
    }
}

/// Context-object bump references flattened to local bindings, for the PDA
/// accounts from `i` on.
pub open spec fn spec_replace_bumps(s: Seq<char>, accs: Seq<PinocchioAccount>, i: int) -> Seq<char>
    decreases accs.len() - i,
{
    if i < 0 || i >= accs.len() {
        s
    } else if accs[i].is_pda {
        let name = accs[i].name@;
        let s1 = replace_seq(s, "ctx . bumps . "@ + name, name + "_bump"@);
        let s2 = replace_seq(s1, "ctx.bumps."@ + name, name + "_bump"@);
        spec_replace_bumps(s2, accs, i + 1)
    } else {
        spec_replace_bumps(s, accs, i + 1)
    }
}

/// The names of the accounts, in declaration order.
pub open spec fn spec_account_names(accs: Seq<PinocchioAccount>) -> Seq<Seq<char>> {
    accs.map_values(|a: PinocchioAccount| a.name@)
}

/// The whole body rewrite pipeline, in its fixed order: outer braces
/// stripped, bulk normalization, context dereferencing, state promotion next
/// to loads, call rewriting, assertion and key-equality lowering, diagnostic
/// joining, event lowering, space cleanup, final state promotion, key fixes,
/// token accessor routing, signer-seed fixes, optional diagnostic stripping,
/// allocation removal, and statement reflow last.  Very short bodies pass
/// through unchanged.
pub open spec fn spec_transform_body(
    s: Seq<char>,
    accs: Seq<PinocchioAccount>,
    config: Config,
) -> Seq<char> {
    if s.len() < 5 {
        s
    } else {
        let t = crate::idl::trim_seq(s);
        let base = if t.len() > 0 && t[0] == '{' && t[t.len() - 1] == '}' {
            t.subrange(1, t.len() - 1)
        } else {
            s
        };
        let b1 = spec_bulk_replacements(base);
        let b2 = spec_replace_ctx_accounts(b1, sort_names_desc(spec_account_names(accs)), 0);
        let b3 = replace_seq(b2, "ctx . accounts . "@, ""@);
        let b4 = replace_seq(b3, "ctx.accounts."@, ""@);
        let b5 = spec_replace_bumps(b4, accs, 0);
        let b6 = replace_seq(b5, "ctx . bumps . "@, "_bump_"@);
        let b7 = replace_seq(b6, "ctx.bumps."@, "_bump_"@);
        let b8 = replace_seq(b7, "ctx.program_id"@, "program_id"@);
        spec_body_tail(b8, spec_account_names(accs), config)
    }
}

/// The tail of the pipeline, from state promotion to statement reflow.
pub open spec fn spec_body_tail(b8: Seq<char>, names: Seq<Seq<char>>, config: Config) -> Seq<
    char,
> {
    spec_body_tail2(spec_body_tail1(b8, names, config), config)
}

/// State promotion, call rewriting, assertion and diagnostic lowering.
pub open spec fn spec_body_tail1(b8: Seq<char>, names: Seq<Seq<char>>, config: Config) -> Seq<
    char,
> {
    {
        let b9 = if contains_seq(b8, ".load"@) {
            spec_transform_state_access(b8, names)
        } else {
            b8
        };
        let b10 = if contains_seq(b9, "CpiContext"@) || contains_seq(b9, "token::"@)
            || contains_seq(b9, "system_program::"@) {
            if config.inline_cpi {
                spec_inline_cpi_calls(b9)
            } else {
                spec_transform_cpi_calls(b9)
            }
        } else {
            b9
        };
        let b11 = if contains_seq(b10, "require!"@) || contains_seq(b10, "require !"@) {
            spec_transform_require(b10)
        } else {
            b10
        };
        let b12 = if contains_seq(b11, "require_keys_eq"@) {
            spec_require_keys_eq(b11)
        } else {
            b11
        };
        let b13 = if contains_seq(b12, "msg!"@) {
            spec_fix_multiline_msg(b12)
        } else {
            b12
        };
        let b14 = if contains_seq(b13, "emit!"@) {
            spec_transform_emit(b13)
        } else {
            b13
        };
        if contains_seq(b14, "  "@) {
            spec_clean_spaces(b14)
        } else {
            b14
        }
    }
}

/// Final state promotion, key and accessor fixes, optional stripping,
/// allocation removal, and statement reflow.
pub open spec fn spec_body_tail2(b15: Seq<char>, config: Config) -> Seq<char> {
    {
        let b16 = if contains_seq(b15, "pool."@) || contains_seq(b15, "farming_period."@)
            || contains_seq(b15, "position."@) {
            spec_state_access_final(b15)
        } else {
            b15
        };
        let b17 = if (contains_seq(b16, ".key()"@) || contains_seq(b16, ".key ()"@))
            && contains_seq(b16, " = "@) {
            spec_fix_pubkey_assignments(b16)
        } else {
            b16
        };
        let b18 = if contains_seq(b17, ".amount"@) {
            spec_fix_token_access(b17, spec_token_accounts(), 0)
        } else {
            b17
        };
        let b19 = if (contains_seq(b18, ".key()"@) || contains_seq(b18, ".key ()"@)) && (
        contains_seq(b18, "=="@) || contains_seq(b18, "!="@)) {
            spec_fix_pubkey_comparisons(b18)
        } else {
            b18
        };
        let b20 = if contains_seq(b19, "signer_seeds"@) || contains_seq(b19, "seeds"@) {
            spec_fix_signer_seeds(b19)
        } else {
            b19
        };
        let b21 = if config.no_logs {
            spec_strip_msg_calls(b20)
        } else {
            b20
        };
        let b22 = if contains_seq(b21, "Vec"@) {
            spec_replace_vec_with_array(b21)
        } else {
            b21
        };
        spec_format_stmts(b22, 0, 0, 0, Seq::empty(), Seq::empty())
    }
}

/// Runs the tail of the pipeline.
fn body_tail_passes(start: &Vec<char>, names: &Vec<Vec<char>>, config: &Config) -> (r: String)
    ensures
        r@ == spec_body_tail(start@, names.deep_view(), *config),
{
    let half = body_tail1(start, names, config);
    body_tail2(&half, config)
}

#[verifier::rlimit(100)]
fn body_tail1(start: &Vec<char>, names: &Vec<Vec<char>>, config: &Config) -> (r: Vec<char>)
    ensures
        r@ == spec_body_tail1(start@, names.deep_view(), *config),
{
    let mut cur = crate::text::clone_of(start);
    // State promotion next to loads.
    let load = chars_of(".load");
    if contains_in(&cur, &load) {
        cur = transform_state_access(&cur, names);
    }
    // Call rewriting.
    let cpictx = chars_of("CpiContext");
    let tok = chars_of("token::");
    let sysp = chars_of("system_program::");
    if contains_in(&cur, &cpictx) || contains_in(&cur, &tok) || contains_in(&cur, &sysp) {
        if config.inline_cpi {
            cur = inline_cpi_calls(&cur);
        } else {
            cur = transform_cpi_calls(&cur);
        }
    }
    // Assertion lowering.
    let req1 = chars_of("require!");
    let req2 = chars_of("require !");
    if contains_in(&cur, &req1) || contains_in(&cur, &req2) {
        let s1 = require_spaced(&cur);
        cur = require_compact(&s1);
    }
    let rke = chars_of("require_keys_eq");
    if contains_in(&cur, &rke) {
        cur = require_keys_eq(&cur);
    }
    // Diagnostic joining.
    let msg = chars_of("msg!");
    if contains_in(&cur, &msg) {
        let joined = fix_multiline_msg(string_of(&cur).as_str());
        cur = chars_of(joined.as_str());
    }
    // Event lowering.
    let em = chars_of("emit!");
    if contains_in(&cur, &em) {
        cur = transform_emit_macro(&cur);
    }
    // Space cleanup.
    let dd = chars_of("  ");
    if contains_in(&cur, &dd) {
        cur = clean_spaces(&cur);
    }
    cur
}

#[verifier::rlimit(100)]
fn body_tail2(start: &Vec<char>, config: &Config) -> (r: String)
    ensures
        r@ == spec_body_tail2(start@, *config),
{
    let mut cur = crate::text::clone_of(start);
    // Final state promotion.
    let sp1 = chars_of("pool.");
    let sp2 = chars_of("farming_period.");
    let sp3 = chars_of("position.");
    if contains_in(&cur, &sp1) || contains_in(&cur, &sp2) || contains_in(&cur, &sp3) {
        let fixed = transform_state_access_final(string_of(&cur).as_str());
        cur = chars_of(fixed.as_str());
    }
    // Key assignment fixes.
    let k1 = chars_of(".key()");
    let k2 = chars_of(".key ()");
    let eqs = chars_of(" = ");
    if (contains_in(&cur, &k1) || contains_in(&cur, &k2)) && contains_in(&cur, &eqs) {
        cur = fix_pubkey_assignments(&cur);
    }
    // Token accessor routing.
    let amt = chars_of(".amount");
    if contains_in(&cur, &amt) {
        cur = fix_token_amount_access(&cur);
    }
    // Key comparison fixes.
    let ee = chars_of("==");
    let ne = chars_of("!=");
    if (contains_in(&cur, &k1) || contains_in(&cur, &k2)) && (contains_in(&cur, &ee)
        || contains_in(&cur, &ne)) {
        cur = fix_pubkey_comparisons(&cur);
    }
    // Signer-seed fixes.
    let ss1 = chars_of("signer_seeds");
    let ss2 = chars_of("seeds");
    if contains_in(&cur, &ss1) || contains_in(&cur, &ss2) {
        cur = fix_signer_seeds(&cur);
    }
    // Optional diagnostic stripping.
    if config.no_logs {
        cur = strip_msg_calls(&cur);
    }
    // Allocation removal.
    let vecp = chars_of("Vec");
    if contains_in(&cur, &vecp) {
        cur = replace_vec_with_array(&cur);
    }
    // Statement reflow, always last.
    format_body_statements(string_of(&cur).as_str())
}

/// Runs the whole body rewrite pipeline on one instruction body.
#[verifier::rlimit(100)]
pub fn transform_body(body: &str, accounts: &Vec<PinocchioAccount>, config: &Config) -> (r: String)
    ensures
        r@ == spec_transform_body(body@, accounts@, *config),
{
    let v = chars_of(body);
    if v.len() < 5 {
        return string_of(&v);
    }
    let t = crate::idl::trim_in(&v);
    let tn = t.len();
    let base = if tn > 0 && t[0] == '{' && t[tn - 1] == '}' {
        slice_of(&t, 1, tn - 1)
    } else {
        crate::text::clone_of(&v)
    };
    assert(base@ == (if t@.len() > 0 && t@[0] == '{' && t@[t@.len() - 1] == '}' {
        t@.subrange(1, t@.len() - 1)
    } else {
        v@
    }));
    let mut cur = apply_bulk_replacements(&base);
    // Context dereferencing, longest account names first.
    let na = accounts.len();
    let mut names: Vec<Vec<char>> = Vec::new();
    for i in 0..na
        invariant
            na == accounts@.len(),
            names@.len() == i,
            forall|m: int| 0 <= m < i ==> (#[trigger] names@[m])@ == accounts@[m].name@,
    {
        names.push(chars_of(accounts[i].name.as_str()));
    }
    proof {
        assert forall|m: int| 0 <= m < names@.len() implies #[trigger] names.deep_view()[m]
            == spec_account_names(accounts@)[m] by {
            assert(names.deep_view()[m] == names@[m].deep_view());
            assert(names@[m].deep_view() =~= names@[m]@);
        }
        assert(names.deep_view() =~= spec_account_names(accounts@));
    }
    let sorted = sort_names(&names);
    let ns = sorted.len();
    let ghost sorted_g = sort_names_desc(spec_account_names(accounts@));
    let ghost ctx_base = cur@;
    for i in 0..ns
        invariant
            ns == sorted@.len(),
            sorted.deep_view() == sorted_g,
            spec_replace_ctx_accounts(cur@, sorted_g, i as int) == spec_replace_ctx_accounts(
                ctx_base,
                sorted_g,
                0,
            ),
    {
        proof {
            assert(sorted.deep_view()[i as int] == sorted@[i as int].deep_view());
            assert(sorted@[i as int].deep_view() =~= sorted@[i as int]@);
            reveal_strlit("");
        }
        let name = &sorted[i];
        let p1 = cat2s("ctx . accounts . ", name, "");
        assert(p1@ =~= "ctx . accounts . "@ + sorted_g[i as int]);
        cur = replace_in(&cur, &p1, name);
        let p2 = cat2s("ctx.accounts.", name, "");
        assert(p2@ =~= "ctx.accounts."@ + sorted_g[i as int]);
        cur = replace_in(&cur, &p2, name);
    }
    cur = replace_str(&cur, "ctx . accounts . ", "");
    cur = replace_str(&cur, "ctx.accounts.", "");
    let nb = accounts.len();
    let ghost bumps_base = cur@;
    for i in 0..nb
        invariant
            nb == accounts@.len(),
            spec_replace_bumps(cur@, accounts@, i as int) == spec_replace_bumps(
                bumps_base,
                accounts@,
                0,
            ),
    {
        if accounts[i].is_pda {
            proof {
                reveal_strlit("");
            }
            let name = chars_of(accounts[i].name.as_str());
            let p1 = cat2s("ctx . bumps . ", &name, "");
            assert(p1@ =~= "ctx . bumps . "@ + accounts@[i as int].name@);
            let r1 = cat2s("", &name, "_bump");
            assert(r1@ =~= accounts@[i as int].name@ + "_bump"@);
            cur = replace_in(&cur, &p1, &r1);
            let p2 = cat2s("ctx.bumps.", &name, "");
            assert(p2@ =~= "ctx.bumps."@ + accounts@[i as int].name@);
            cur = replace_in(&cur, &p2, &r1);
        }
    }
    cur = replace_str(&cur, "ctx . bumps . ", "_bump_");
    cur = replace_str(&cur, "ctx.bumps.", "_bump_");
    cur = replace_str(&cur, "ctx.program_id", "program_id");
    body_tail_passes(&cur, &names, config)
}

// ------------------------------------------------------------------
// Account mapping and validation generation
// ------------------------------------------------------------------

/// First PDA fact recorded for an account name, if any.
pub open spec fn spec_find_pda(pdas: Seq<PdaInfo>, name: Seq<char>, i: int) -> Option<int>
    decreases pdas.len() - i,
{
    if i < 0 || i >= pdas.len() {
        None
    } else if pdas[i].account_name@ == name {
        Some(i)
    } else {
        spec_find_pda(pdas, name, i + 1)
    }
}

/// A found PDA fact is in range and first.
pub proof fn lemma_find_pda_bounds(pdas: Seq<PdaInfo>, name: Seq<char>, i: int)
    requires
        spec_find_pda(pdas, name, i) is Some,
    ensures
        i <= spec_find_pda(pdas, name, i)->Some_0 < pdas.len(),
        pdas[spec_find_pda(pdas, name, i)->Some_0].account_name@ == name,
    decreases pdas.len() - i,
{
    if 0 <= i < pdas.len() && pdas[i].account_name@ != name {
        lemma_find_pda_bounds(pdas, name, i + 1);
    }
}

/// The account carries a mutability constraint.
pub open spec fn spec_has_mut(cs: Seq<AccountConstraint>, i: int) -> bool
    decreases cs.len() - i,
{
    if i < 0 || i >= cs.len() {
        false
    } else {
        cs[i] is Mut || spec_has_mut(cs, i + 1)
    }
}

/// The account carries a mutability or initialize constraint.
pub open spec fn spec_is_writable(cs: Seq<AccountConstraint>, i: int) -> bool
    decreases cs.len() - i,
{
    if i < 0 || i >= cs.len() {
        false
    } else {
        cs[i] is Mut || cs[i] is Init || spec_is_writable(cs, i + 1)
    }
}

/// The payer of the first initialize constraint, if any.
pub open spec fn spec_first_init(cs: Seq<AccountConstraint>, i: int) -> Option<Seq<char>>
    decreases cs.len() - i,
{
    if i < 0 || i >= cs.len() {
        None
    } else {
        match cs[i] {
            AccountConstraint::Init { payer, space } => Some(payer@),
            _ => spec_first_init(cs, i + 1),
        }
    }
}

/// The first token-mint reference, if any.
pub open spec fn spec_first_token_mint(cs: Seq<AccountConstraint>, i: int) -> Option<Seq<char>>
    decreases cs.len() - i,
{
    if i < 0 || i >= cs.len() {
        None
    } else {
        match cs[i] {
            AccountConstraint::TokenMint(m) => Some(m@),
            _ => spec_first_token_mint(cs, i + 1),
        }
    }
}

/// The first token-authority reference, if any.
pub open spec fn spec_first_token_auth(cs: Seq<AccountConstraint>, i: int) -> Option<Seq<char>>
    decreases cs.len() - i,
{
    if i < 0 || i >= cs.len() {
        None
    } else {
        match cs[i] {
            AccountConstraint::TokenAuthority(a) => Some(a@),
            _ => spec_first_token_auth(cs, i + 1),
        }
    }
}

/// The payload of the first bump-source constraint, flattened.
pub open spec fn spec_first_bump(cs: Seq<AccountConstraint>, i: int) -> Option<Seq<char>>
    decreases cs.len() - i,
{
    if i < 0 || i >= cs.len() {
        None
    } else {
        match cs[i] {
            AccountConstraint::Bump(b) => match b {
                Some(x) => Some(x@),
                None => None,
            },
            _ => spec_first_bump(cs, i + 1),
        }
    }
}

/// Whether the account's type is the signer kind.
pub open spec fn spec_is_signer_kind(t: AccountType) -> bool {
    t is Signer
}

/// The per-account metadata mapping is faithful: name, stable index, role
/// flags from kind and constraints, PDA seeds from the first matching fact,
/// and initialize and token references from the first matching constraints.
pub open spec fn spec_good_account(
    src: AnchorAccount,
    idx: int,
    pdas: Seq<PdaInfo>,
    out: PinocchioAccount,
) -> bool {
    &&& out.name@ == src.name@
    &&& out.index == idx
    &&& out.is_signer == spec_is_signer_kind(src.ty)
    &&& out.is_writable == spec_is_writable(src.constraints@, 0)
    &&& out.is_pda == (spec_find_pda(pdas, src.name@, 0) is Some)
    &&& (match spec_find_pda(pdas, src.name@, 0) {
        Some(k) => out.pda_seeds is Some && out.pda_seeds->Some_0.deep_view()
            == pdas[k].seeds.deep_view(),
        None => out.pda_seeds is None,
    })
    &&& out.is_init == (spec_first_init(src.constraints@, 0) is Some)
    &&& (match spec_first_init(src.constraints@, 0) {
        Some(p) => out.init_payer is Some && out.init_payer->Some_0@ == p,
        None => out.init_payer is None,
    })
    &&& (match spec_first_token_mint(src.constraints@, 0) {
        Some(m) => out.token_mint is Some && out.token_mint->Some_0@ == m,
        None => out.token_mint is None,
    })
    &&& (match spec_first_token_auth(src.constraints@, 0) {
        Some(a) => out.token_authority is Some && out.token_authority->Some_0@ == a,
        None => out.token_authority is None,
    })
}

/// Maps one source account declaration to its target-form metadata.
pub fn transform_account(anchor_acc: &AnchorAccount, index: usize, analysis: &ProgramAnalysis) -> (r:
    PinocchioAccount)
    ensures
        spec_good_account(*anchor_acc, index as int, analysis.pdas@, r),
{
    let is_signer = match &anchor_acc.ty {
        AccountType::Signer => true,
        _ => false,
    };
    let cs = &anchor_acc.constraints;
    let nc = cs.len();
    let mut is_writable = false;
    let mut is_init = false;
    let mut init_payer: Option<String> = None;
    let mut token_mint: Option<String> = None;
    let mut token_authority: Option<String> = None;
    for i in 0..nc
        invariant
            nc == cs@.len(),
            cs@ == anchor_acc.constraints@,
            !is_writable ==> spec_is_writable(cs@, 0) == spec_is_writable(cs@, i as int),
            is_writable ==> spec_is_writable(cs@, 0),
            (match spec_first_init(cs@, 0) {
                Some(p) => (is_init && init_payer is Some && init_payer->Some_0@ == p) || (!is_init
                    && spec_first_init(cs@, i as int) == spec_first_init(cs@, 0)),
                None => !is_init && init_payer is None,
            }),
            !is_init ==> init_payer is None && spec_first_init(cs@, i as int) == spec_first_init(
                cs@,
                0,
            ),
            (match spec_first_token_mint(cs@, 0) {
                Some(m) => (token_mint is Some && token_mint->Some_0@ == m) || (token_mint is None
                    && spec_first_token_mint(cs@, i as int) == spec_first_token_mint(cs@, 0)),
                None => token_mint is None,
            }),
            token_mint is None ==> spec_first_token_mint(cs@, i as int) == spec_first_token_mint(
                cs@,
                0,
            ),
            (match spec_first_token_auth(cs@, 0) {
                Some(a) => (token_authority is Some && token_authority->Some_0@ == a) || (
                token_authority is None && spec_first_token_auth(cs@, i as int)
                    == spec_first_token_auth(cs@, 0)),
                None => token_authority is None,
            }),
            token_authority is None ==> spec_first_token_auth(cs@, i as int)
                == spec_first_token_auth(cs@, 0),
    {
        match &cs[i] {
            AccountConstraint::Mut => {
                is_writable = true;
            },
            AccountConstraint::Init { payer, space } => {
                is_writable = true;
                if !is_init {
                    is_init = true;
                    init_payer = Some(payer.clone());
                }
            },
            AccountConstraint::TokenMint(m) => {
                if token_mint.is_none() {
                    token_mint = Some(m.clone());
                }
            },
            AccountConstraint::TokenAuthority(a) => {
                if token_authority.is_none() {
                    token_authority = Some(a.clone());
                }
            },
            _ => {},
        }
    }
    let pdas = &analysis.pdas;
    let np = pdas.len();
    let mut is_pda = false;
    let mut pda_seeds: Option<Vec<String>> = None;
    for i in 0..np
        invariant
            np == pdas@.len(),
            pdas@ == analysis.pdas@,
            (match spec_find_pda(pdas@, anchor_acc.name@, 0) {
                Some(k) => (is_pda && pda_seeds is Some && pda_seeds->Some_0.deep_view()
                    == pdas@[k].seeds.deep_view()) || (!is_pda && spec_find_pda(
                    pdas@,
                    anchor_acc.name@,
                    i as int,
                ) == spec_find_pda(pdas@, anchor_acc.name@, 0)),
                None => !is_pda && pda_seeds is None,
            }),
            !is_pda ==> pda_seeds is None && spec_find_pda(pdas@, anchor_acc.name@, i as int)
                == spec_find_pda(pdas@, anchor_acc.name@, 0),
    {
        if !is_pda {
            let p = &pdas[i];
            if crate::text::str_eq(p.account_name.as_str(), anchor_acc.name.as_str()) {
                is_pda = true;
                let cloned = clone_strings_tr(&p.seeds);
                proof {
                    assert(cloned.deep_view() =~~= pdas@[i as int].seeds.deep_view());
                }
                pda_seeds = Some(cloned);
            }
        }
    }
    PinocchioAccount {
        name: anchor_acc.name.clone(),
        index,
        is_signer,
        is_writable,
        is_pda,
        pda_seeds,
        is_init,
        token_mint,
        token_authority,
        init_payer,
    }
}

fn clone_strings_tr(v: &Vec<String>) -> (r: Vec<String>)
    ensures
        r@ == v@,
{
    let n = v.len();
    let mut r: Vec<String> = Vec::new();
    for i in 0..n
        invariant
            n == v@.len(),
            r@ =~= v@.subrange(0, i as int),
    {
        r.push(v[i].clone());
    }
    assert(r@ =~= v@);
    r
}

/// The mathematical content of one validation step.
pub enum ValidationV {
    SignerCheck(int),
    WritableCheck(int),
    PdaCheckV { idx: int, seeds: Seq<Seq<char>>, bump: Option<Seq<char>> },
    OwnerCheckV(int, Seq<char>),
    KeyEqualsV(int, Seq<char>),
    CustomV(Seq<char>),
}

/// The content of a validation step.
pub open spec fn validation_view(v: Validation) -> ValidationV {
    match v {
        Validation::IsSigner { account_idx } => ValidationV::SignerCheck(account_idx as int),
        Validation::IsWritable { account_idx } => ValidationV::WritableCheck(account_idx as int),
        Validation::PdaCheck { account_idx, seeds, bump } => ValidationV::PdaCheckV {
            idx: account_idx as int,
            seeds: seeds.deep_view(),
            bump: match bump {
                Some(b) => Some(b@),
                None => None,
            },
        },
        Validation::OwnerCheck { account_idx, owner } => ValidationV::OwnerCheckV(
            account_idx as int,
            owner@,
        ),
        Validation::KeyEquals { account_idx, expected } => ValidationV::KeyEqualsV(
            account_idx as int,
            expected@,
        ),
        Validation::Custom { code } => ValidationV::CustomV(code@),
    }
}

/// A lowered custom guard: the constraint expression with key reads
/// dereferenced for the account names from `i` on, longest names first.
pub open spec fn spec_constraint_expr(e: Seq<char>, sorted: Seq<Seq<char>>, i: int) -> Seq<char>
    decreases sorted.len() - i,
{
    if i < 0 || i >= sorted.len() {
        e
    } else {
        let name = sorted[i];
        let e2 = if contains_seq(e, name + ".key()"@) {
            replace_seq(e, name + ".key()"@, "*"@ + name + ".key()"@)
        } else {
            e
        };
        spec_constraint_expr(e2, sorted, i + 1)
    }
}

/// The guard text generated for one custom boolean constraint.
pub open spec fn spec_custom_code(
    expr: Seq<char>,
    error: Option<Seq<char>>,
    sorted: Seq<Seq<char>>,
) -> Seq<char> {
    let te = spec_constraint_expr(expr, sorted, 0);
    let cleaned = replace_seq(replace_seq(te, "\n"@, " "@), "  "@, " "@);
    let msg = match error {
        Some(e) => e,
        None => "ProgramError::Custom(0)"@,
    };
    "if !("@ + cleaned + ") {\n        return Err("@ + msg + ");\n    }"@
}

/// Signer checks for every signer-kind account from `i` on, in declaration
/// order.
pub open spec fn spec_signer_checks(accs: Seq<AnchorAccount>, i: int) -> Seq<ValidationV>
    decreases accs.len() - i,
{
    if i < 0 || i >= accs.len() {
        Seq::empty()
    } else {
        (if spec_is_signer_kind(accs[i].ty) {
            seq![ValidationV::SignerCheck(i)]
        } else {
            Seq::empty()
        }) + spec_signer_checks(accs, i + 1)
    }
}

/// Writable checks for every mutability-constrained account from `i` on, in
/// declaration order.
pub open spec fn spec_writable_checks(accs: Seq<AnchorAccount>, i: int) -> Seq<ValidationV>
    decreases accs.len() - i,
{
    if i < 0 || i >= accs.len() {
        Seq::empty()
    } else {
        (if spec_has_mut(accs[i].constraints@, 0) {
            seq![ValidationV::WritableCheck(i)]
        } else {
            Seq::empty()
        }) + spec_writable_checks(accs, i + 1)
    }
}

/// PDA checks of one account's constraints from `j` on, in constraint
/// order; each carries the account's first bump source.
pub open spec fn spec_pda_constraints(acc: AnchorAccount, idx: int, j: int) -> Seq<ValidationV>
    decreases acc.constraints@.len() - j,
{
    let cs = acc.constraints@;
    if j < 0 || j >= cs.len() {
        Seq::empty()
    } else {
        (match cs[j] {
            AccountConstraint::Seeds(sv) => seq![
                ValidationV::PdaCheckV {
                    idx,
                    seeds: sv.deep_view(),
                    bump: spec_first_bump(cs, 0),
                },
            ],
            _ => Seq::empty(),
        }) + spec_pda_constraints(acc, idx, j + 1)
    }
}

/// PDA checks for every account from `i` on, in declaration order.
pub open spec fn spec_pda_checks(accs: Seq<AnchorAccount>, i: int) -> Seq<ValidationV>
    decreases accs.len() - i,
{
    if i < 0 || i >= accs.len() {
        Seq::empty()
    } else {
        spec_pda_constraints(accs[i], i, 0) + spec_pda_checks(accs, i + 1)
    }
}

/// Lowered custom guards of one account's constraints from `j` on, in
/// constraint order.
pub open spec fn spec_custom_constraints(
    acc: AnchorAccount,
    idx: int,
    sorted: Seq<Seq<char>>,
    j: int,
) -> Seq<ValidationV>
    decreases acc.constraints@.len() - j,
{
    let cs = acc.constraints@;
    if j < 0 || j >= cs.len() {
        Seq::empty()
    } else {
        (match cs[j] {
            AccountConstraint::Constraint { expr, error } => seq![
                ValidationV::CustomV(
                    spec_custom_code(
                        expr@,
                        match error {
                            Some(e) => Some(e@),
                            None => None,
                        },
                        sorted,
                    ),
                ),
            ],
            _ => Seq::empty(),
        }) + spec_custom_constraints(acc, idx, sorted, j + 1)
    }
}

/// Lowered custom guards for every account from `i` on, in declaration
/// order.
pub open spec fn spec_custom_checks(
    accs: Seq<AnchorAccount>,
    i: int,
    sorted: Seq<Seq<char>>,
) -> Seq<ValidationV>
    decreases accs.len() - i,
{
    if i < 0 || i >= accs.len() {
        Seq::empty()
    } else {
        spec_custom_constraints(accs[i], i, sorted, 0) + spec_custom_checks(accs, i + 1, sorted)
    }
}

/// The names of the declared accounts.
pub open spec fn spec_decl_names(accs: Seq<AnchorAccount>) -> Seq<Seq<char>> {
    accs.map_values(|a: AnchorAccount| a.name@)
}

/// The whole ordered validation list of an account group, in the fixed
/// kind-major order callers may rely on: first every signer check, then
/// every writable check, then every PDA check, then every lowered custom
/// guard — declaration order within each kind.
pub open spec fn spec_validations(accs: Seq<AnchorAccount>) -> Seq<ValidationV> {
    spec_signer_checks(accs, 0) + spec_writable_checks(accs, 0) + spec_pda_checks(accs, 0)
        + spec_custom_checks(accs, 0, sort_names_desc(spec_decl_names(accs)))
}

/// Generates the ordered validation list of one account group: all signer
/// checks, then all writable checks, then all PDA checks, then all lowered
/// custom guards, each kind in account declaration order.  The relative
/// order is itself a contract a caller may rely on.
pub fn generate_validations(account_struct: &AnchorAccountStruct) -> (r: Vec<Validation>)
    ensures
        r@.map_values(|v: Validation| validation_view(v)) == spec_validations(
            account_struct.accounts@,
        ),
{
    let accs = &account_struct.accounts;
    let n = accs.len();
    // Account names, longest first, shared by every lowered guard.
    let mut names: Vec<Vec<char>> = Vec::new();
    for i in 0..n
        invariant
            n == accs@.len(),
            names@.len() == i,
            forall|m: int| 0 <= m < i ==> (#[trigger] names@[m])@ == accs@[m].name@,
    {
        names.push(chars_of(accs[i].name.as_str()));
    }
    proof {
        assert forall|m: int| 0 <= m < names@.len() implies #[trigger] names.deep_view()[m]
            == spec_decl_names(accs@)[m] by {
            assert(names.deep_view()[m] == names@[m].deep_view());
            assert(names@[m].deep_view() =~= names@[m]@);
        }
        assert(names.deep_view() =~= spec_decl_names(accs@));
    }
    let sorted = sort_names(&names);
    let ghost sorted_g = sort_names_desc(spec_decl_names(accs@));
    let mut out: Vec<Validation> = Vec::new();
    assert(out@.map_values(|v: Validation| validation_view(v)) =~= Seq::<ValidationV>::empty());

    // Signer checks.
    for i in 0..n
        invariant
            n == accs@.len(),
            out@.map_values(|v: Validation| validation_view(v)) + spec_signer_checks(
                accs@,
                i as int,
            ) == spec_signer_checks(accs@, 0),
    {
        let ghost pre = out@.map_values(|v: Validation| validation_view(v));
        let is_signer = match &accs[i].ty {
            AccountType::Signer => true,
            _ => false,
        };
        if is_signer {
            out.push(Validation::IsSigner { account_idx: i });
            assert(out@.map_values(|v: Validation| validation_view(v)) =~= pre + seq![
                validation_view(out@[out@.len() - 1]),
            ]);
        }
    }
    assert(spec_signer_checks(accs@, n as int) =~= Seq::<ValidationV>::empty());
    let ghost stage1 = out@.map_values(|v: Validation| validation_view(v));
    assert(stage1 =~= spec_signer_checks(accs@, 0));

    // Writable checks.
    for i in 0..n
        invariant
            n == accs@.len(),
            out@.map_values(|v: Validation| validation_view(v)) == stage1 + (
            spec_writable_checks(accs@, 0).take(
                spec_writable_checks(accs@, 0).len() - spec_writable_checks(
                    accs@,
                    i as int,
                ).len(),
            )),
            spec_writable_checks(accs@, 0) == spec_writable_checks(accs@, 0).take(
                spec_writable_checks(accs@, 0).len() - spec_writable_checks(accs@, i as int).len(),
            ) + spec_writable_checks(accs@, i as int),
    {
        let ghost pre = out@.map_values(|v: Validation| validation_view(v));
        let cs = &accs[i].constraints;
        let nc = cs.len();
        let mut has_mut = false;
        for j in 0..nc
            invariant
                nc == cs@.len(),
                cs@ == accs@[i as int].constraints@,
                has_mut ==> spec_has_mut(cs@, 0),
                !has_mut ==> spec_has_mut(cs@, 0) == spec_has_mut(cs@, j as int),
        {
            match &cs[j] {
                AccountConstraint::Mut => {
                    has_mut = true;
                },
                _ => {},
            }
        }
        if has_mut {
            out.push(Validation::IsWritable { account_idx: i });
            assert(out@.map_values(|v: Validation| validation_view(v)) =~= pre + seq![
                validation_view(out@[out@.len() - 1]),
            ]);
        }
        proof {
            lemma_stage_take_step(spec_writable_checks(accs@, 0), spec_writable_checks(
                accs@,
                i as int,
            ), spec_writable_checks(accs@, i + 1), if spec_has_mut(accs@[i as int].constraints@, 0) {
                seq![ValidationV::WritableCheck(i as int)]
            } else {
                Seq::empty()
            });
        }
    }
    assert(spec_writable_checks(accs@, n as int) =~= Seq::<ValidationV>::empty());
    let ghost stage2 = out@.map_values(|v: Validation| validation_view(v));
    proof {
        assert(spec_writable_checks(accs@, 0).take(spec_writable_checks(accs@, 0).len() as int)
            =~= spec_writable_checks(accs@, 0));
        assert(stage2 =~= spec_signer_checks(accs@, 0) + spec_writable_checks(accs@, 0));
    }

    // PDA checks.
    for i in 0..n
        invariant
            n == accs@.len(),
            out@.map_values(|v: Validation| validation_view(v)) + spec_pda_checks(accs@, i as int)
                == stage2 + spec_pda_checks(accs@, 0),
    {
        let acc = &accs[i];
        let cs = &acc.constraints;
        let nc = cs.len();
        // First bump source on this account, for its PDA checks.
        let mut bump: Option<String> = None;
        let mut saw_bump = false;
        for j in 0..nc
            invariant
                nc == cs@.len(),
                cs@ == accs@[i as int].constraints@,
                saw_bump ==> (match spec_first_bump(cs@, 0) {
                    Some(b) => bump is Some && bump->Some_0@ == b,
                    None => bump is None,
                }),
                !saw_bump ==> bump is None && spec_first_bump(cs@, j as int) == spec_first_bump(
                    cs@,
                    0,
                ),
        {
            if !saw_bump {
                match &cs[j] {
                    AccountConstraint::Bump(b) => {
                        saw_bump = true;
                        bump = match b {
                            Some(x) => Some(x.clone()),
                            None => None,
                        };
                    },
                    _ => {},
                }
            }
        }
        proof {
            if !saw_bump {
                assert(spec_first_bump(cs@, nc as int) is None);
            }
        }
        let ghost bump_g = spec_first_bump(cs@, 0);
        for j in 0..nc
            invariant
                nc == cs@.len(),
                cs@ == accs@[i as int].constraints@,
                bump_g == spec_first_bump(cs@, 0),
                (match bump_g {
                    Some(b) => bump is Some && bump->Some_0@ == b,
                    None => bump is None,
                }),
                out@.map_values(|v: Validation| validation_view(v)) + spec_pda_constraints(
                    accs@[i as int],
                    i as int,
                    j as int,
                ) + spec_pda_checks(accs@, i + 1) == stage2 + spec_pda_checks(accs@, 0),
        {
            let ghost pre2 = out@.map_values(|v: Validation| validation_view(v));
            match &cs[j] {
                AccountConstraint::Seeds(sv) => {
                    let seeds = clone_strings_tr(sv);
                    let b2 = match &bump {
                        Some(x) => Some(x.clone()),
                        None => None,
                    };
                    let val = Validation::PdaCheck { account_idx: i, seeds, bump: b2 };
                    proof {
                        assert(validation_view(val) == ValidationV::PdaCheckV {
                            idx: i as int,
                            seeds: cs@[j as int]->Seeds_0.deep_view(),
                            bump: bump_g,
                        });
                    }
                    out.push(val);
                    assert(out@.map_values(|v: Validation| validation_view(v)) =~= pre2 + seq![
                        validation_view(out@[out@.len() - 1]),
                    ]);
                },
                _ => {},
            }
        }
        assert(spec_pda_constraints(accs@[i as int], i as int, nc as int) =~= Seq::<
            ValidationV,
        >::empty());
    }
    assert(spec_pda_checks(accs@, n as int) =~= Seq::<ValidationV>::empty());
    let ghost stage3 = out@.map_values(|v: Validation| validation_view(v));
    assert(stage3 =~= stage2 + spec_pda_checks(accs@, 0));

    // Lowered custom guards.
    for i in 0..n
        invariant
            n == accs@.len(),
            sorted.deep_view() == sorted_g,
            sorted_g == sort_names_desc(spec_decl_names(accs@)),
            out@.map_values(|v: Validation| validation_view(v)) + spec_custom_checks(
                accs@,
                i as int,
                sorted_g,
            ) == stage3 + spec_custom_checks(accs@, 0, sorted_g),
    {
        let acc = &accs[i];
        let cs = &acc.constraints;
        let nc = cs.len();
        for j in 0..nc
            invariant
                nc == cs@.len(),
                cs@ == accs@[i as int].constraints@,
                sorted.deep_view() == sorted_g,
                sorted_g == sort_names_desc(spec_decl_names(accs@)),
                out@.map_values(|v: Validation| validation_view(v)) + spec_custom_constraints(
                    accs@[i as int],
                    i as int,
                    sorted_g,
                    j as int,
                ) + spec_custom_checks(accs@, i + 1, sorted_g) == stage3 + spec_custom_checks(
                    accs@,
                    0,
                    sorted_g,
                ),
        {
            let ghost pre2 = out@.map_values(|v: Validation| validation_view(v));
            match &cs[j] {
                AccountConstraint::Constraint { expr, error } => {
                    let ev = chars_of(expr.as_str());
                    let ns2 = sorted.len();
                    let mut te = crate::text::clone_of(&ev);
                    for k in 0..ns2
                        invariant
                            ns2 == sorted@.len(),
                            sorted.deep_view() == sorted_g,
                            spec_constraint_expr(te@, sorted_g, k as int) == spec_constraint_expr(
                                ev@,
                                sorted_g,
                                0,
                            ),
                    {
                        proof {
                            assert(sorted.deep_view()[k as int] == sorted@[k as int].deep_view());
                            assert(sorted@[k as int].deep_view() =~= sorted@[k as int]@);
                        }
                        let nm = &sorted[k];
                        let pat = cat3(nm, ".key()", &Vec::new());
                        assert(pat@ =~= sorted_g[k as int] + ".key()"@);
                        if contains_in(&te, &pat) {
                            let rep = cat2s("*", nm, ".key()");
                            te = replace_in(&te, &pat, &rep);
                        }
                    }
                    let cl1 = replace_str(&te, "\n", " ");
                    let cl2 = replace_str(&cl1, "  ", " ");
                    let mut code = chars_of("if !(");
                    append_all(&mut code, &cl2);
                    append_str(&mut code, ") {\n        return Err(");
                    match error {
                        Some(e) => {
                            append_str(&mut code, e.as_str());
                        },
                        None => {
                            append_str(&mut code, "ProgramError::Custom(0)");
                        },
                    }
                    append_str(&mut code, ");\n    }");
                    let val = Validation::Custom { code: string_of(&code) };
                    proof {
                        assert(validation_view(val) == ValidationV::CustomV(
                            spec_custom_code(
                                cs@[j as int]->Constraint_expr@,
                                match cs@[j as int]->Constraint_error {
                                    Some(e) => Some(e@),
                                    None => None,
                                },
                                sorted_g,
                            ),
                        ));
                    }
                    out.push(val);
                    assert(out@.map_values(|v: Validation| validation_view(v)) =~= pre2 + seq![
                        validation_view(out@[out@.len() - 1]),
                    ]);
                },
                _ => {},
            }
        }
        assert(spec_custom_constraints(accs@[i as int], i as int, sorted_g, nc as int) =~= Seq::<
            ValidationV,
        >::empty());
    }
    assert(spec_custom_checks(accs@, n as int, sorted_g) =~= Seq::<ValidationV>::empty());
    proof {
        assert(out@.map_values(|v: Validation| validation_view(v)) =~= stage3
            + spec_custom_checks(accs@, 0, sorted_g));
        assert(out@.map_values(|v: Validation| validation_view(v)) =~= spec_validations(accs@));
    }
    out
}

// Helper step for the writable-stage take/drop bookkeeping.
proof fn lemma_stage_take_step(
    whole: Seq<ValidationV>,
    at_i: Seq<ValidationV>,
    at_next: Seq<ValidationV>,
    piece: Seq<ValidationV>,
)
    requires
        at_i == piece + at_next,
        whole == whole.take(whole.len() - at_i.len()) + at_i,
    ensures
        whole == whole.take(whole.len() - at_next.len()) + at_next,
        whole.take(whole.len() - at_next.len()) =~= whole.take(whole.len() - at_i.len()) + piece,
{
    assert(whole.take(whole.len() - at_next.len()) =~= whole.take(whole.len() - at_i.len())
        + piece);
    assert(whole =~= whole.take(whole.len() - at_next.len()) + at_next);
}

/// A PDA seed or bump expression references the account's own state.
pub open spec fn spec_self_ref(name: Seq<char>, seeds: Seq<Seq<char>>, bump: Option<Seq<char>>, i: int) -> bool
    decreases seeds.len() - i,
{
    if i < 0 || i >= seeds.len() {
        match bump {
            Some(b) => contains_seq(b, name + " . "@),
            None => false,
        }
    } else {
        contains_seq(seeds[i], name + " . "@) || spec_self_ref(name, seeds, bump, i + 1)
    }
}

/// Chooses the PDA validation branch for one account: derive-and-compare
/// exactly when the account is being initialized, no bump source is
/// supplied, or a seed or the bump references the account's own
/// not-yet-deserialized state; otherwise the supplied bump is appended and
/// the address recomputed.  The choice is per account, never per program.
pub fn pda_check_strategy(account: &PinocchioAccount, seeds: &Vec<String>, bump: &Option<String>) -> (
    derive: bool)
    ensures
        derive == (account.is_init || bump is None || spec_self_ref(
            account.name@,
            seeds.deep_view(),
            match bump {
                Some(b) => Some(b@),
                None => None,
            },
            0,
        )),
{
    if account.is_init {
        return true;
    }
    let is_none = match bump {
        Some(_) => false,
        None => true,
    };
    if is_none {
        return true;
    }
    let mut pat = chars_of(account.name.as_str());
    append_str(&mut pat, " . ");
    let n = seeds.len();
    for i in 0..n
        invariant
            n == seeds@.len(),
            pat@ == account.name@ + " . "@,
            forall|m: int|
                0 <= m < i ==> !contains_seq(#[trigger] seeds.deep_view()[m], account.name@
                    + " . "@),
    {
        proof {
            assert(seeds.deep_view()[i as int] == seeds@[i as int].deep_view());
            assert(seeds@[i as int].deep_view() =~= seeds@[i as int]@);
        }
        let sv = chars_of(seeds[i].as_str());
        if contains_in(&sv, &pat) {
            proof {
                lemma_self_ref_found(account.name@, seeds.deep_view(), match bump {
                    Some(b) => Some(b@),
                    None => None,
                }, 0, i as int);
            }
            return true;
        }
    }
    match bump {
        Some(b) => {
            let bv = chars_of(b.as_str());
            let r = contains_in(&bv, &pat);
            proof {
                lemma_self_ref_tail(account.name@, seeds.deep_view(), Some(b@), 0);
            }
            r
        },
        None => false,
    }
}

proof fn lemma_self_ref_found(
    name: Seq<char>,
    seeds: Seq<Seq<char>>,
    bump: Option<Seq<char>>,
    i: int,
    j: int,
)
    requires
        0 <= i <= j < seeds.len(),
        contains_seq(seeds[j], name + " . "@),
    ensures
        spec_self_ref(name, seeds, bump, i),
    decreases j - i,
{
    if i < j {
        lemma_self_ref_found(name, seeds, bump, i + 1, j);
    }
}

proof fn lemma_self_ref_tail(name: Seq<char>, seeds: Seq<Seq<char>>, bump: Option<Seq<char>>, i: int)
    requires
        0 <= i <= seeds.len(),
        forall|m: int| i <= m < seeds.len() ==> !contains_seq(#[trigger] seeds[m], name + " . "@),
    ensures
        spec_self_ref(name, seeds, bump, i) == (match bump {
            Some(b) => contains_seq(b, name + " . "@),
            None => false,
        }),
    decreases seeds.len() - i,
{
    if i < seeds.len() {
        lemma_self_ref_tail(name, seeds, bump, i + 1);
    }
}

// ------------------------------------------------------------------
// Per-instruction transformation and the whole pipeline
// ------------------------------------------------------------------

/// First account group with the given name, if any.
pub open spec fn spec_find_struct(structs: Seq<AnchorAccountStruct>, name: Seq<char>, i: int) -> Option<
    int,
>
    decreases structs.len() - i,
{
    if i < 0 || i >= structs.len() {
        None
    } else if structs[i].name@ == name {
        Some(i)
    } else {
        spec_find_struct(structs, name, i + 1)
    }
}

/// A found group is in range and carries the name.
pub proof fn lemma_find_struct_bounds(structs: Seq<AnchorAccountStruct>, name: Seq<char>, i: int)
    requires
        spec_find_struct(structs, name, i) is Some,
    ensures
        i <= spec_find_struct(structs, name, i)->Some_0 < structs.len(),
        structs[spec_find_struct(structs, name, i)->Some_0].name@ == name,
    decreases structs.len() - i,
{
    if 0 <= i < structs.len() && structs[i].name@ != name {
        lemma_find_struct_bounds(structs, name, i + 1);
    }
}

/// The account declarations an instruction resolves to: those of its named
/// group, or none when the group is missing.
pub open spec fn spec_resolved_accounts(
    src: AnchorInstruction,
    program: AnchorProgram,
) -> Seq<AnchorAccount> {
    match spec_find_struct(program.account_structs@, src.accounts_struct@, 0) {
        Some(k) => program.account_structs@[k].accounts@,
        None => Seq::empty(),
    }
}

/// The placeholder discriminator.
pub open spec fn spec_zero_disc() -> Seq<u8> {
    seq![0u8, 0u8, 0u8, 0u8, 0u8, 0u8, 0u8, 0u8]
}

/// The discriminator an instruction receives under the configuration.
pub open spec fn spec_disc_of(name: Seq<char>, config: Config) -> Seq<u8> {
    if config.anchor_compat {
        crate::idl::spec_discriminator("global"@, crate::idl::snake_seq(name))
    } else {
        spec_zero_disc()
    }
}

/// The per-instruction transformation is faithful: name kept, discriminator
/// per the configured scheme, accounts mapped in declaration order,
/// arguments kept, validations generated in the fixed order, and the body
/// run through the pipeline.
pub open spec fn spec_good_instruction(
    src: AnchorInstruction,
    program: AnchorProgram,
    analysis: ProgramAnalysis,
    config: Config,
    out: PinocchioInstruction,
) -> bool {
    let accs = spec_resolved_accounts(src, program);
    &&& out.name@ == src.name@
    &&& out.discriminator@ == spec_disc_of(src.name@, config)
    &&& out.accounts@.len() == accs.len()
    &&& forall|i: int|
        0 <= i < accs.len() ==> spec_good_account(accs[i], i, analysis.pdas@, #[trigger] out.accounts@[i])
    &&& out.args@.len() == src.args@.len()
    &&& forall|i: int|
        0 <= i < src.args@.len() ==> (#[trigger] out.args@[i]).name@ == src.args@[i].name@
            && out.args@[i].ty@ == src.args@[i].ty@
    &&& out.validations@.map_values(|v: Validation| validation_view(v)) == spec_validations(accs)
    &&& out.body@ == spec_transform_body(src.body@, out.accounts@, config)
}

/// Computes the content-derived discriminator of an instruction name.
pub fn anchor_discriminator(name: &str) -> (r: Vec<u8>)
    ensures
        r@ == crate::idl::spec_discriminator("global"@, crate::idl::snake_seq(name@)),
        r@.len() == 8,
{
    let snake = crate::idl::to_snake_case(name);
    crate::idl::calculate_discriminator("global", snake.as_str())
}

/// Transforms one instruction, independently of every other: group
/// resolution (a missing group is an empty account list, not an error),
/// discriminator, account mapping, ordered validations, and the body
/// pipeline.
pub fn transform_instruction(
    anchor_inst: &AnchorInstruction,
    program: &AnchorProgram,
    analysis: &ProgramAnalysis,
    config: &Config,
) -> (r: PinocchioInstruction)
    ensures
        spec_good_instruction(*anchor_inst, *program, *analysis, *config, r),
{
    let structs = &program.account_structs;
    let ns = structs.len();
    let mut found: Option<usize> = None;
    for i in 0..ns
        invariant
            ns == structs@.len(),
            structs@ == program.account_structs@,
            (match found {
                Some(k) => spec_find_struct(structs@, anchor_inst.accounts_struct@, 0) == Some(
                    k as int,
                ) && k < ns,
                None => spec_find_struct(structs@, anchor_inst.accounts_struct@, i as int)
                    == spec_find_struct(structs@, anchor_inst.accounts_struct@, 0),
            }),
    {
        if found.is_none() {
            if crate::text::str_eq(structs[i].name.as_str(), anchor_inst.accounts_struct.as_str()) {
                found = Some(i);
            }
        }
    }
    let empty_accounts: Vec<AnchorAccount> = Vec::new();
    let accs: &Vec<AnchorAccount> = match &found {
        Some(k) => &structs[*k].accounts,
        None => &empty_accounts,
    };
    proof {
        assert(accs@ =~= spec_resolved_accounts(*anchor_inst, *program));
    }
    let discriminator: Vec<u8> = if config.anchor_compat {
        anchor_discriminator(anchor_inst.name.as_str())
    } else {
        let mut d: Vec<u8> = Vec::new();
        let mut k: usize = 0;
        while k < 8
            invariant
                k <= 8,
                d@ =~= spec_zero_disc().subrange(0, k as int),
            decreases 8 - k,
        {
            d.push(0u8);
            assert(d@ =~= spec_zero_disc().subrange(0, k + 1));
            k += 1;
        }
        assert(d@ =~= spec_zero_disc());
        d
    };
    let na = accs.len();
    let mut accounts: Vec<PinocchioAccount> = Vec::new();
    for i in 0..na
        invariant
            na == accs@.len(),
            accs@ == spec_resolved_accounts(*anchor_inst, *program),
            accounts@.len() == i,
            forall|m: int|
                0 <= m < i ==> spec_good_account(
                    accs@[m],
                    m,
                    analysis.pdas@,
                    #[trigger] accounts@[m],
                ),
    {
        accounts.push(transform_account(&accs[i], i, analysis));
    }
    let validations = match &found {
        Some(k) => generate_validations(&structs[*k]),
        None => {
            let empty_struct = AnchorAccountStruct {
                name: anchor_inst.accounts_struct.clone(),
                instruction_args: Vec::new(),
                accounts: Vec::new(),
            };
            assert(empty_struct.accounts@ =~= accs@);
            generate_validations(&empty_struct)
        },
    };
    let nargs = anchor_inst.args.len();
    let mut args: Vec<InstructionArg> = Vec::new();
    for i in 0..nargs
        invariant
            nargs == anchor_inst.args@.len(),
            args@.len() == i,
            forall|m: int|
                0 <= m < i ==> (#[trigger] args@[m]).name@ == anchor_inst.args@[m].name@
                    && args@[m].ty@ == anchor_inst.args@[m].ty@,
    {
        let a = &anchor_inst.args[i];
        args.push(InstructionArg { name: a.name.clone(), ty: a.ty.clone() });
    }
    let body = transform_body(anchor_inst.body.as_str(), &accounts, config);
    PinocchioInstruction {
        name: anchor_inst.name.clone(),
        discriminator,
        accounts,
        args,
        validations,
        body,
    }
}

/// The record transformation is faithful: name kept, the declared size
/// equal to the 8-byte header plus the sum of the field sizes, and fields
/// laid out with monotonically accumulated offsets after the header, key
/// types rewritten to byte arrays.
pub open spec fn spec_good_state(src: AnchorStateStruct, out: PinocchioState) -> bool {
    &&& out.name@ == src.name@
    &&& out.size as nat == crate::layout::sat_usize(
        8 + crate::layout::sum_seq(crate::layout::spec_field_sizes(src.fields@)),
    )
    &&& out.fields@.len() == src.fields@.len()
    &&& forall|i: int|
        0 <= i < src.fields@.len() ==> {
            let f = src.fields@[i];
            let g = #[trigger] out.fields@[i];
            &&& g.name@ == f.name@
            &&& g.ty@ == replace_seq(f.ty@, "Pubkey"@, "[u8; 32]"@)
            &&& g.size as nat == crate::layout::sat_usize(
                crate::layout::spec_record_field_size(f.ty@, f.max_len),
            )
            &&& g.offset as nat == crate::layout::sat_usize(
                8 + crate::layout::sum_seq(
                    crate::layout::spec_field_sizes(src.fields@).take(i),
                ),
            )
            &&& g.max_len == f.max_len
        }
}

/// Lays out one state record for the target form.  The declared size is
/// recomputed through the layout engine rather than read from the fact set,
/// so the header-plus-field-sum invariant holds of every produced record;
/// the analyzer's size fact, when present, agrees with it by the analyzer's
/// own contract.
pub fn transform_state(anchor_state: &AnchorStateStruct, _analysis: &ProgramAnalysis) -> (r:
    PinocchioState)
    ensures
        spec_good_state(*anchor_state, r),
{
    let nf = anchor_state.fields.len();
    let mut offset: usize = 8;
    let mut fields: Vec<PinocchioField> = Vec::new();
    let ghost fsizes = crate::layout::spec_field_sizes(anchor_state.fields@);
    assert(fsizes.take(0) =~= Seq::<nat>::empty());
    for i in 0..nf
        invariant
            nf == anchor_state.fields@.len(),
            fsizes == crate::layout::spec_field_sizes(anchor_state.fields@),
            offset as nat == crate::layout::sat_usize(
                8 + crate::layout::sum_seq(fsizes.take(i as int)),
            ),
            fields@.len() == i,
            forall|m: int|
                0 <= m < i ==> {
                    let f = anchor_state.fields@[m];
                    let g = #[trigger] fields@[m];
                    &&& g.name@ == f.name@
                    &&& g.ty@ == replace_seq(f.ty@, "Pubkey"@, "[u8; 32]"@)
                    &&& g.size as nat == crate::layout::sat_usize(
                        crate::layout::spec_record_field_size(f.ty@, f.max_len),
                    )
                    &&& g.offset as nat == crate::layout::sat_usize(
                        8 + crate::layout::sum_seq(fsizes.take(m)),
                    )
                    &&& g.max_len == f.max_len
                },
    {
        let f = &anchor_state.fields[i];
        let size = crate::layout::record_field_size(f.ty.as_str(), f.max_len);
        let tyv = chars_of(f.ty.as_str());
        let ty2 = replace_str(&tyv, "Pubkey", "[u8; 32]");
        fields.push(
            PinocchioField {
                name: f.name.clone(),
                ty: string_of(&ty2),
                size,
                offset,
                max_len: f.max_len,
            },
        );
        proof {
            crate::layout::lemma_sum_take_step(fsizes, i as int);
            assert(fsizes[i as int] == crate::layout::spec_record_field_size(
                anchor_state.fields@[i as int].ty@,
                anchor_state.fields@[i as int].max_len,
            ));
        }
        offset = match offset.checked_add(size) {
            Some(t) => t,
            None => usize::MAX,
        };
    }
    assert(fsizes.take(nf as int) =~= fsizes);
    PinocchioState { name: anchor_state.name.clone(), size: offset, fields }
}

/// The error transformation is faithful: names and messages kept, codes
/// resolved with 6000 as the default.
pub open spec fn spec_good_errors(src: Seq<AnchorError>, out: Seq<PinocchioError>) -> bool {
    &&& out.len() == src.len()
    &&& forall|i: int|
        0 <= i < src.len() ==> {
            let e = src[i];
            let g = #[trigger] out[i];
            &&& g.name@ == e.name@
            &&& g.code == (match e.code {
                Some(c) => c,
                None => 6000u32,
            })
            &&& g.msg@ == e.msg@
        }
}

/// Resolves the declared errors for the target form.
pub fn transform_errors(anchor_errors: &Vec<AnchorError>) -> (r: Vec<PinocchioError>)
    ensures
        spec_good_errors(anchor_errors@, r@),
{
    let n = anchor_errors.len();
    let mut r: Vec<PinocchioError> = Vec::new();
    for i in 0..n
        invariant
            n == anchor_errors@.len(),
            r@.len() == i,
            forall|m: int|
                0 <= m < i ==> {
                    let e = anchor_errors@[m];
                    let g = #[trigger] r@[m];
                    &&& g.name@ == e.name@
                    &&& g.code == (match e.code {
                        Some(c) => c,
                        None => 6000u32,
                    })
                    &&& g.msg@ == e.msg@
                },
    {
        let e = &anchor_errors[i];
        let code: u32 = match e.code {
            Some(c) => c,
            None => 6000,
        };
        r.push(PinocchioError { name: e.name.clone(), code, msg: e.msg.clone() });
    }
    r
}

/// Two distinct instructions collide when their content-derived
/// discriminators agree.
pub open spec fn spec_has_collision(insts: Seq<AnchorInstruction>) -> bool {
    exists|i: int, j: int|
        0 <= i < j < insts.len() && crate::idl::spec_discriminator(
            "global"@,
            crate::idl::snake_seq(#[trigger] insts[i].name@),
        ) == crate::idl::spec_discriminator(
            "global"@,
            crate::idl::snake_seq(#[trigger] insts[j].name@),
        )
}

/// The whole transformation is faithful: program identity and configuration
/// kept, every instruction, record and error transformed as their own
/// contracts state.
pub open spec fn spec_good_program(
    src: AnchorProgram,
    analysis: ProgramAnalysis,
    config: Config,
    out: PinocchioProgram,
) -> bool {
    &&& out.name@ == src.name@
    &&& (match src.program_id {
        Some(p) => out.program_id is Some && out.program_id->Some_0@ == p@,
        None => out.program_id is None,
    })
    &&& out.config.no_alloc == config.no_alloc
    &&& out.config.lazy_entrypoint == config.lazy_entrypoint
    &&& out.config.anchor_compat == config.anchor_compat
    &&& out.instructions@.len() == src.instructions@.len()
    &&& forall|i: int|
        0 <= i < src.instructions@.len() ==> spec_good_instruction(
            src.instructions@[i],
            src,
            analysis,
            config,
            #[trigger] out.instructions@[i],
        )
    &&& out.state_structs@.len() == src.state_structs@.len()
    &&& forall|i: int|
        0 <= i < src.state_structs@.len() ==> spec_good_state(
            src.state_structs@[i],
            #[trigger] out.state_structs@[i],
        )
    &&& spec_good_errors(src.errors@, out.errors@)
}

/// Runs the whole transformation.  Succeeds exactly when the content-derived
/// discriminator scheme is off or no two distinct instructions collide;
/// under the content-derived scheme the discriminators of the result are
/// pairwise distinct.
pub fn transform(anchor: &AnchorProgram, analysis: &ProgramAnalysis, config: &Config) -> (r: Result<
    PinocchioProgram,
    TransformError,
>)
    ensures
        match r {
            Ok(out) => {
                &&& spec_good_program(*anchor, *analysis, *config, out)
                &&& !(config.anchor_compat && spec_has_collision(anchor.instructions@))
                &&& config.anchor_compat ==> forall|i: int, j: int|
                    0 <= i < j < out.instructions@.len()
                        ==> (#[trigger] out.instructions@[i]).discriminator@ != (
                    #[trigger] out.instructions@[j]).discriminator@
            },
            Err(e) => e == TransformError::DiscriminatorCollision && config.anchor_compat
                && spec_has_collision(anchor.instructions@),
        },
{
    let n = anchor.instructions.len();
    let mut instructions: Vec<PinocchioInstruction> = Vec::new();
    for i in 0..n
        invariant
            n == anchor.instructions@.len(),
            instructions@.len() == i,
            forall|m: int|
                0 <= m < i ==> spec_good_instruction(
                    anchor.instructions@[m],
                    *anchor,
                    *analysis,
                    *config,
                    #[trigger] instructions@[m],
                ),
    {
        instructions.push(transform_instruction(&anchor.instructions[i], anchor, analysis, config));
    }
    // Discriminator-collision detection under the content-derived scheme.
    if config.anchor_compat {
        for i in 0..n
            invariant
                config.anchor_compat,
                n == anchor.instructions@.len(),
                instructions@.len() == n,
                forall|m: int|
                    0 <= m < n ==> spec_good_instruction(
                        anchor.instructions@[m],
                        *anchor,
                        *analysis,
                        *config,
                        #[trigger] instructions@[m],
                    ),
                forall|a: int, b: int|
                    0 <= a < i && a < b < n ==> (#[trigger] instructions@[a]).discriminator@ != (
                    #[trigger] instructions@[b]).discriminator@,
        {
            for j in (i + 1)..n
                invariant
                    config.anchor_compat,
                    i < n,
                    i + 1 <= j,
                    n == anchor.instructions@.len(),
                    instructions@.len() == n,
                    forall|m: int|
                        0 <= m < n ==> spec_good_instruction(
                            anchor.instructions@[m],
                            *anchor,
                            *analysis,
                            *config,
                            #[trigger] instructions@[m],
                        ),
                    forall|a: int, b: int|
                        0 <= a < i && a < b < n ==> (#[trigger] instructions@[a]).discriminator@
                            != (#[trigger] instructions@[b]).discriminator@,
                    forall|b: int|
                        i < b < j ==> (#[trigger] instructions@[b]).discriminator@
                            != instructions@[i as int].discriminator@,
            {
                if eq_bytes(&instructions[i].discriminator, &instructions[j].discriminator) {
                    proof {
                        assert(crate::idl::spec_discriminator(
                            "global"@,
                            crate::idl::snake_seq(anchor.instructions@[i as int].name@),
                        ) == crate::idl::spec_discriminator(
                            "global"@,
                            crate::idl::snake_seq(anchor.instructions@[j as int].name@),
                        ));
                        assert(spec_has_collision(anchor.instructions@));
                    }
                    return Err(TransformError::DiscriminatorCollision);
                }
            }
        }
        proof {
            if spec_has_collision(anchor.instructions@) {
                let (ci, cj) = choose|ci: int, cj: int|
                    0 <= ci < cj < anchor.instructions@.len() && crate::idl::spec_discriminator(
                        "global"@,
                        crate::idl::snake_seq(#[trigger] anchor.instructions@[ci].name@),
                    ) == crate::idl::spec_discriminator(
                        "global"@,
                        crate::idl::snake_seq(#[trigger] anchor.instructions@[cj].name@),
                    );
                assert(instructions@[ci].discriminator@ == instructions@[cj].discriminator@);
                assert(false);
            }
        }
    }
    let nstates = anchor.state_structs.len();
    let mut state_structs: Vec<PinocchioState> = Vec::new();
    for i in 0..nstates
        invariant
            nstates == anchor.state_structs@.len(),
            state_structs@.len() == i,
            forall|m: int|
                0 <= m < i ==> spec_good_state(
                    anchor.state_structs@[m],
                    #[trigger] state_structs@[m],
                ),
    {
        state_structs.push(transform_state(&anchor.state_structs[i], analysis));
    }
    let errors = transform_errors(&anchor.errors);
    let program_id: Option<String> = match &anchor.program_id {
        Some(p) => Some(p.clone()),
        None => None,
    };
    Ok(
        PinocchioProgram {
            name: anchor.name.clone(),
            program_id,
            config: PinocchioConfig {
                no_alloc: config.no_alloc,
                lazy_entrypoint: config.lazy_entrypoint,
                anchor_compat: config.anchor_compat,
            },
            instructions,
            state_structs,
            errors,
        },
    )
}

fn eq_bytes(a: &Vec<u8>, b: &Vec<u8>) -> (r: bool)
    ensures
        r == (a@ == b@),
{
    if a.len() != b.len() {
        assert(a@ != b@);
        return false;
    }
    let n = a.len();
    for i in 0..n
        invariant
            n == a@.len(),
            n == b@.len(),
            forall|m: int| 0 <= m < i ==> a@[m] == b@[m],
    {
        if a[i] != b[i] {
            assert(a@ != b@);
            return false;
        }
    }
    assert(a@ =~= b@);
    true
}

// ------------------------------------------------------------------
// Idempotence of the pipeline
// ------------------------------------------------------------------

proof fn lemma_bumps_congruence(s: Seq<char>, a1: Seq<PinocchioAccount>, a2: Seq<
    PinocchioAccount,
>, i: int)
    requires
        a1.len() == a2.len(),
        forall|m: int|
            0 <= m < a1.len() ==> (#[trigger] a1[m]).name@ == a2[m].name@ && a1[m].is_pda
                == a2[m].is_pda,
    ensures
        spec_replace_bumps(s, a1, i) == spec_replace_bumps(s, a2, i),
    decreases a1.len() - i,
{
    if 0 <= i < a1.len() {
        if a1[i].is_pda {
            lemma_bumps_congruence(
                replace_seq(
                    replace_seq(s, "ctx . bumps . "@ + a1[i].name@, a1[i].name@ + "_bump"@),
                    "ctx.bumps."@ + a1[i].name@,
                    a1[i].name@ + "_bump"@,
                ),
                a1,
                a2,
                i + 1,
            );
        } else {
            lemma_bumps_congruence(s, a1, a2, i + 1);
        }
    }
}

/// The pipeline reads only the names and PDA flags of the account
/// metadata: metadata with equal content rewrites a body identically.
pub proof fn lemma_body_congruence(
    s: Seq<char>,
    a1: Seq<PinocchioAccount>,
    a2: Seq<PinocchioAccount>,
    config: Config,
)
    requires
        a1.len() == a2.len(),
        forall|m: int|
            0 <= m < a1.len() ==> (#[trigger] a1[m]).name@ == a2[m].name@ && a1[m].is_pda
                == a2[m].is_pda,
    ensures
        spec_transform_body(s, a1, config) == spec_transform_body(s, a2, config),
{
    assert(spec_account_names(a1) =~= spec_account_names(a2));
    if s.len() >= 5 {
        let t = crate::idl::trim_seq(s);
        let base = if t.len() > 0 && t[0] == '{' && t[t.len() - 1] == '}' {
            t.subrange(1, t.len() - 1)
        } else {
            s
        };
        let b1 = spec_bulk_replacements(base);
        let b2 = spec_replace_ctx_accounts(b1, sort_names_desc(spec_account_names(a1)), 0);
        let b3 = replace_seq(b2, "ctx . accounts . "@, ""@);
        let b4 = replace_seq(b3, "ctx.accounts."@, ""@);
        lemma_bumps_congruence(b4, a1, a2, 0);
    }
}

/// Idempotence: re-running the whole pipeline on an unchanged source-form
/// model, fact set and configuration yields an identical target-form model.
/// Any two results that the transformation contract admits for the same
/// inputs agree in every part: program identity, configuration, and every
/// instruction's name, discriminator, account metadata, arguments,
/// validation list and rewritten body, every record layout, and every error.
pub proof fn lemma_pipeline_deterministic(
    src: AnchorProgram,
    analysis: ProgramAnalysis,
    config: Config,
    r1: PinocchioProgram,
    r2: PinocchioProgram,
)
    requires
        spec_good_program(src, analysis, config, r1),
        spec_good_program(src, analysis, config, r2),
    ensures
        r1.name@ == r2.name@,
        r1.program_id is Some <==> r2.program_id is Some,
        r1.program_id is Some ==> r1.program_id->Some_0@ == r2.program_id->Some_0@,
        r1.config == r2.config,
        r1.instructions@.len() == r2.instructions@.len(),
        forall|i: int|
            0 <= i < r1.instructions@.len() ==> {
                let x = #[trigger] r1.instructions@[i];
                let y = r2.instructions@[i];
                &&& x.name@ == y.name@
                &&& x.discriminator@ == y.discriminator@
                &&& x.body@ == y.body@
                &&& x.accounts@.len() == y.accounts@.len()
                &&& x.args@.len() == y.args@.len()
                &&& x.validations@.map_values(|v: Validation| validation_view(v))
                    == y.validations@.map_values(|v: Validation| validation_view(v))
            },
        r1.state_structs@.len() == r2.state_structs@.len(),
        forall|i: int|
            0 <= i < r1.state_structs@.len() ==> {
                let x = #[trigger] r1.state_structs@[i];
                let y = r2.state_structs@[i];
                x.name@ == y.name@ && x.size == y.size && x.fields@.len() == y.fields@.len()
            },
        r1.errors@.len() == r2.errors@.len(),
        forall|i: int|
            0 <= i < r1.errors@.len() ==> {
                let x = #[trigger] r1.errors@[i];
                let y = r2.errors@[i];
                x.name@ == y.name@ && x.code == y.code && x.msg@ == y.msg@
            },
{
    assert forall|i: int| 0 <= i < r1.instructions@.len() implies {
        let x = #[trigger] r1.instructions@[i];
        let y = r2.instructions@[i];
        &&& x.name@ == y.name@
        &&& x.discriminator@ == y.discriminator@
        &&& x.body@ == y.body@
        &&& x.accounts@.len() == y.accounts@.len()
        &&& x.args@.len() == y.args@.len()
        &&& x.validations@.map_values(|v: Validation| validation_view(v))
            == y.validations@.map_values(|v: Validation| validation_view(v))
    } by {
        let x = r1.instructions@[i];
        let y = r2.instructions@[i];
        assert(spec_good_instruction(src.instructions@[i], src, analysis, config, x));
        assert(spec_good_instruction(src.instructions@[i], src, analysis, config, y));
        let accs = spec_resolved_accounts(src.instructions@[i], src);
        assert forall|m: int| 0 <= m < x.accounts@.len() implies (
        #[trigger] x.accounts@[m]).name@ == y.accounts@[m].name@ && x.accounts@[m].is_pda
            == y.accounts@[m].is_pda by {
            assert(spec_good_account(accs[m], m, analysis.pdas@, x.accounts@[m]));
            assert(spec_good_account(accs[m], m, analysis.pdas@, y.accounts@[m]));
        }
        lemma_body_congruence(src.instructions@[i].body@, x.accounts@, y.accounts@, config);
    }
}

} // verus!
