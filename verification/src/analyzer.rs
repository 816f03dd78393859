//! The relationship analyzer: a pure, deterministic scan of the source-form
//! model that produces the immutable fact set — PDA declarations, recognized
//! cross-program call shapes, and per-record byte sizes — before any
//! transformation begins.  Absence of a fact is not an error.

use vstd::prelude::*;
use crate::ir::{
    AccountConstraint, AccountSize, AnchorAccount, AnchorAccountStruct, AnchorProgram, CpiCall,
    PdaInfo, ProgramAnalysis, StateField,
};
use crate::layout::{record_field_size, sat_usize, spec_field_sizes, spec_record_field_size, sum_seq};
use crate::text::{chars_of, contains_in, contains_seq};

verus! {

/// The seed list of the last seed-list constraint on an account, if any.
pub open spec fn spec_last_seeds(cs: Seq<AccountConstraint>) -> Option<Vec<String>>
    decreases cs.len(),
{
    if cs.len() == 0 {
        None
    } else {
        match cs[cs.len() - 1] {
            AccountConstraint::Seeds(s) => Some(s),
            _ => spec_last_seeds(cs.take(cs.len() - 1)),
        }
    }
}

/// The payload of the last bump-source constraint on an account, if any.
pub open spec fn spec_last_bump(cs: Seq<AccountConstraint>) -> Option<Option<String>>
    decreases cs.len(),
{
    if cs.len() == 0 {
        None
    } else {
        match cs[cs.len() - 1] {
            AccountConstraint::Bump(b) => Some(b),
            _ => spec_last_bump(cs.take(cs.len() - 1)),
        }
    }
}

/// An account is a PDA declaration exactly when it carries a seed-list
/// constraint.
pub open spec fn spec_is_pda(a: AnchorAccount) -> bool {
    spec_last_seeds(a.constraints@) is Some
}

/// The bump source recorded for an account: the payload of its bump
/// constraint, when one names a source.
pub open spec fn spec_bump_source(cs: Seq<AccountConstraint>) -> Option<Seq<char>> {
    match spec_last_bump(cs) {
        Some(b) => match b {
            Some(x) => Some(x@),
            None => None,
        },
        None => None,
    }
}

/// The mathematical content of one PDA fact: account name, seed expressions,
/// bump source.
pub open spec fn pda_view(p: PdaInfo) -> (Seq<char>, Seq<Seq<char>>, Option<Seq<char>>) {
    (
        p.account_name@,
        p.seeds.deep_view(),
        match p.bump_source {
            Some(b) => Some(b@),
            None => None,
        },
    )
}

/// The PDA fact emitted for one account, if it is a PDA declaration.
pub open spec fn spec_pda_of_account(a: AnchorAccount) -> Option<
    (Seq<char>, Seq<Seq<char>>, Option<Seq<char>>),
> {
    match spec_last_seeds(a.constraints@) {
        Some(s) => Some((a.name@, s.deep_view(), spec_bump_source(a.constraints@))),
        None => None,
    }
}

/// PDA facts of the accounts of one group, from position `i` on, in
/// declaration order.
pub open spec fn spec_pdas_from(accs: Seq<AnchorAccount>, i: int) -> Seq<
    (Seq<char>, Seq<Seq<char>>, Option<Seq<char>>),
>
    decreases accs.len() - i,
{
    if i < 0 || i >= accs.len() {
        Seq::empty()
    } else {
        (match spec_pda_of_account(accs[i]) {
            Some(p) => seq![p],
            None => Seq::empty(),
        }) + spec_pdas_from(accs, i + 1)
    }
}

/// PDA facts of all account groups from position `j` on, in declaration
/// order.
pub open spec fn spec_pdas_structs_from(structs: Seq<AnchorAccountStruct>, j: int) -> Seq<
    (Seq<char>, Seq<Seq<char>>, Option<Seq<char>>),
>
    decreases structs.len() - j,
{
    if j < 0 || j >= structs.len() {
        Seq::empty()
    } else {
        spec_pdas_from(structs[j].accounts@, 0) + spec_pdas_structs_from(structs, j + 1)
    }
}

/// All PDA facts of a program, in declaration order.
pub open spec fn spec_extract_pdas(prog: AnchorProgram) -> Seq<
    (Seq<char>, Seq<Seq<char>>, Option<Seq<char>>),
> {
    spec_pdas_structs_from(prog.account_structs@, 0)
}

fn clone_strings(v: &Vec<String>) -> (r: Vec<String>)
    ensures
        r@ == v@,
{
    let n = v.len();
    let mut r: Vec<String> = Vec::new();
    for i in 0..n
        invariant
            n == v@.len(),
            r@ =~= v@.subrange(0, i as int),
    {
        r.push(v[i].clone());
    }
    assert(r@ =~= v@);
    r
}

/// Emits one PDA fact per account that carries a seed-list constraint,
/// recording the account name, the seed expressions, the bump source if one
/// is named, and the owning program identity placeholder.
pub fn extract_pdas(program: &AnchorProgram) -> (r: Vec<PdaInfo>)
    ensures
        r@.len() == spec_extract_pdas(*program).len(),
        forall|i: int|
            0 <= i < r@.len() ==> pda_view(#[trigger] r@[i]) == spec_extract_pdas(*program)[i],
        forall|i: int| 0 <= i < r@.len() ==> (#[trigger] r@[i]).program_id@ == "program_id"@,
{
    let ghost whole = spec_extract_pdas(*program);
    let mut r: Vec<PdaInfo> = Vec::new();
    let ns = program.account_structs.len();
    assert(whole =~= r@.map_values(|p: PdaInfo| pda_view(p)) + spec_pdas_structs_from(
        program.account_structs@,
        0,
    ));
    for j in 0..ns
        invariant
            ns == program.account_structs@.len(),
            whole == spec_extract_pdas(*program),
            whole =~= r@.map_values(|p: PdaInfo| pda_view(p)) + spec_pdas_structs_from(
                program.account_structs@,
                j as int,
            ),
            forall|i: int| 0 <= i < r@.len() ==> (#[trigger] r@[i]).program_id@ == "program_id"@,
    {
        let accs = &program.account_structs[j].accounts;
        let na = accs.len();
        for k in 0..na
            invariant
                ns == program.account_structs@.len(),
                j < ns,
                na == accs@.len(),
                accs@ == program.account_structs@[j as int].accounts@,
                whole == spec_extract_pdas(*program),
                whole =~= r@.map_values(|p: PdaInfo| pda_view(p)) + spec_pdas_from(
                    accs@,
                    k as int,
                ) + spec_pdas_structs_from(program.account_structs@, j + 1),
                forall|i: int|
                    0 <= i < r@.len() ==> (#[trigger] r@[i]).program_id@ == "program_id"@,
        {
            let a = &accs[k];
            let cs = &a.constraints;
            let ncs = cs.len();
            let mut seeds: Option<Vec<String>> = None;
            let mut bump_source: Option<String> = None;
            let mut saw_bump = false;
            assert(cs@.take(0) =~= Seq::<AccountConstraint>::empty());
            for c in 0..ncs
                invariant
                    ncs == cs@.len(),
                    cs@ == accs@[k as int].constraints@,
                    (match spec_last_seeds(cs@.take(c as int)) {
                        Some(s) => seeds is Some && seeds->Some_0@ == s@,
                        None => seeds is None,
                    }),
                    (match spec_last_bump(cs@.take(c as int)) {
                        Some(b) => saw_bump && (match b {
                            Some(x) => bump_source is Some && bump_source->Some_0@ == x@,
                            None => bump_source is None,
                        }),
                        None => !saw_bump && bump_source is None,
                    }),
            {
                proof {
                    assert(cs@.take(c + 1).take(c as int) =~= cs@.take(c as int));
                    assert(cs@.take(c + 1)[c as int] == cs@[c as int]);
                }
                match &cs[c] {
                    AccountConstraint::Seeds(s) => {
                        seeds = Some(clone_strings(s));
                    },
                    AccountConstraint::Bump(b) => {
                        saw_bump = true;
                        bump_source = match b {
                            Some(x) => Some(x.clone()),
                            None => None,
                        };
                    },
                    _ => {},
                }
            }
            assert(cs@.take(ncs as int) =~= cs@);
            proof {
                assert(spec_pdas_from(accs@, k as int) =~= (match spec_pda_of_account(
                    accs@[k as int],
                ) {
                    Some(p) => seq![p],
                    None => Seq::<(Seq<char>, Seq<Seq<char>>, Option<Seq<char>>)>::empty(),
                }) + spec_pdas_from(accs@, k + 1));
            }
            match seeds {
                Some(s) => {
                    let ghost pre = r@;
                    let info = PdaInfo {
                        account_name: a.name.clone(),
                        seeds: s,
                        bump_source,
                        program_id: String::from_str("program_id"),
                    };
                    proof {
                        assert(info.seeds.deep_view() =~= spec_last_seeds(
                            cs@,
                        )->Some_0.deep_view());
                        assert(pda_view(info) == spec_pda_of_account(accs@[k as int])->Some_0);
                    }
                    r.push(info);
                    assert(r@.map_values(|p: PdaInfo| pda_view(p)) =~= pre.map_values(
                        |p: PdaInfo| pda_view(p),
                    ) + seq![pda_view(info)]);
                },
                None => {},
            }
        }
        assert(spec_pdas_from(accs@, na as int) =~= Seq::<
            (Seq<char>, Seq<Seq<char>>, Option<Seq<char>>),
        >::empty());
    }
    assert(spec_pdas_structs_from(program.account_structs@, ns as int) =~= Seq::<
        (Seq<char>, Seq<Seq<char>>, Option<Seq<char>>),
    >::empty());
    proof {
        assert(whole =~= r@.map_values(|p: PdaInfo| pda_view(p)));
        assert forall|i: int| 0 <= i < r@.len() implies pda_view(#[trigger] r@[i])
            == spec_extract_pdas(*program)[i] by {
            assert(r@.map_values(|p: PdaInfo| pda_view(p))[i] == pda_view(r@[i]));
        }
    }
    r
}

/// The content of one call fact: target program identity, operation name,
/// and the ordered account roles the operation requires.
pub open spec fn cpi_view(c: CpiCall) -> (Seq<char>, Seq<char>, Seq<Seq<char>>) {
    (c.target_program@, c.instruction@, c.accounts.deep_view())
}

/// The call facts one body contributes, in the fixed detection order: token
/// transfer, token mint, token burn, then the native-asset transfer shape.
pub open spec fn spec_cpi_of_body(body: Seq<char>) -> Seq<
    (Seq<char>, Seq<char>, Seq<Seq<char>>),
> {
    (if contains_seq(body, "token::transfer"@) {
        seq![("token_program"@, "transfer"@, seq!["from"@, "to"@, "authority"@])]
    } else {
        Seq::empty()
    }) + (if contains_seq(body, "token::mint_to"@) {
        seq![("token_program"@, "mint_to"@, seq!["mint"@, "to"@, "authority"@])]
    } else {
        Seq::empty()
    }) + (if contains_seq(body, "token::burn"@) {
        seq![("token_program"@, "burn"@, seq!["mint"@, "from"@, "authority"@])]
    } else {
        Seq::empty()
    }) + (if contains_seq(body, "system_program::transfer"@) || contains_seq(body, "Transfer"@) {
        seq![("system_program"@, "transfer"@, seq!["from"@, "to"@])]
    } else {
        Seq::empty()
    })
}

/// Call facts of the instructions from `i` on, body by body.
pub open spec fn spec_cpi_facts(insts: Seq<crate::ir::AnchorInstruction>, i: int) -> Seq<
    (Seq<char>, Seq<char>, Seq<Seq<char>>),
>
    decreases insts.len() - i,
{
    if i < 0 || i >= insts.len() {
        Seq::empty()
    } else {
        spec_cpi_of_body(insts[i].body@) + spec_cpi_facts(insts, i + 1)
    }
}

fn roles3(a: &str, b: &str, c: &str) -> (r: Vec<String>)
    ensures
        r.deep_view() =~= seq![a@, b@, c@],
{
    let mut accounts: Vec<String> = Vec::new();
    accounts.push(String::from_str(a));
    accounts.push(String::from_str(b));
    accounts.push(String::from_str(c));
    proof {
        assert(accounts.deep_view() =~~= seq![a@, b@, c@]);
    }
    accounts
}

fn roles2(a: &str, b: &str) -> (r: Vec<String>)
    ensures
        r.deep_view() =~= seq![a@, b@],
{
    let mut accounts: Vec<String> = Vec::new();
    accounts.push(String::from_str(a));
    accounts.push(String::from_str(b));
    proof {
        assert(accounts.deep_view() =~~= seq![a@, b@]);
    }
    accounts
}

/// Scans every instruction body for the literal call shapes of the known
/// external-program operations and emits one call fact per match, in
/// instruction order and fixed shape order within a body, each carrying the
/// target program, the operation name, and the ordered account roles that
/// operation requires.
#[verifier::rlimit(100)]
pub fn extract_cpi_calls(program: &AnchorProgram) -> (r: Vec<CpiCall>)
    ensures
        r@.len() == spec_cpi_facts(program.instructions@, 0).len(),
        forall|i: int|
            0 <= i < r@.len() ==> cpi_view(#[trigger] r@[i]) == spec_cpi_facts(
                program.instructions@,
                0,
            )[i],
{
    let n = program.instructions.len();
    let mut r: Vec<CpiCall> = Vec::new();
    let p_transfer = chars_of("token::transfer");
    let p_mint = chars_of("token::mint_to");
    let p_burn = chars_of("token::burn");
    let p_sys = chars_of("system_program::transfer");
    let p_cap = chars_of("Transfer");
    let ghost whole = spec_cpi_facts(program.instructions@, 0);
    assert(r@.map_values(|c: CpiCall| cpi_view(c)) + whole =~= whole);
    for i in 0..n
        invariant
            n == program.instructions@.len(),
            p_transfer@ == "token::transfer"@,
            p_mint@ == "token::mint_to"@,
            p_burn@ == "token::burn"@,
            p_sys@ == "system_program::transfer"@,
            p_cap@ == "Transfer"@,
            whole == spec_cpi_facts(program.instructions@, 0),
            r@.map_values(|c: CpiCall| cpi_view(c)) + spec_cpi_facts(
                program.instructions@,
                i as int,
            ) == whole,
    {
        let ghost pre = r@.map_values(|c: CpiCall| cpi_view(c));
        let ghost b = program.instructions@[i as int].body@;
        let body = chars_of(program.instructions[i].body.as_str());
        if contains_in(&body, &p_transfer) {
            let fact = CpiCall {
                target_program: String::from_str("token_program"),
                instruction: String::from_str("transfer"),
                accounts: roles3("from", "to", "authority"),
            };
            proof {
                assert(cpi_view(fact) == ("token_program"@, "transfer"@, seq![
                    "from"@,
                    "to"@,
                    "authority"@,
                ]));
            }
            r.push(fact);
            assert(r@.map_values(|c: CpiCall| cpi_view(c)) =~= pre + seq![
                cpi_view(r@[r@.len() - 1]),
            ]);
        }
        let ghost s1 = r@.map_values(|c: CpiCall| cpi_view(c));
        assert(s1 =~= pre + (if contains_seq(b, "token::transfer"@) {
            seq![("token_program"@, "transfer"@, seq!["from"@, "to"@, "authority"@])]
        } else {
            Seq::empty()
        }));
        if contains_in(&body, &p_mint) {
            let fact = CpiCall {
                target_program: String::from_str("token_program"),
                instruction: String::from_str("mint_to"),
                accounts: roles3("mint", "to", "authority"),
            };
            proof {
                assert(cpi_view(fact) == ("token_program"@, "mint_to"@, seq![
                    "mint"@,
                    "to"@,
                    "authority"@,
                ]));
            }
            r.push(fact);
            assert(r@.map_values(|c: CpiCall| cpi_view(c)) =~= s1 + seq![
                cpi_view(r@[r@.len() - 1]),
            ]);
        }
        let ghost s2 = r@.map_values(|c: CpiCall| cpi_view(c));
        assert(s2 =~= s1 + (if contains_seq(b, "token::mint_to"@) {
            seq![("token_program"@, "mint_to"@, seq!["mint"@, "to"@, "authority"@])]
        } else {
            Seq::empty()
        }));
        if contains_in(&body, &p_burn) {
            let fact = CpiCall {
                target_program: String::from_str("token_program"),
                instruction: String::from_str("burn"),
                accounts: roles3("mint", "from", "authority"),
            };
            proof {
                assert(cpi_view(fact) == ("token_program"@, "burn"@, seq![
                    "mint"@,
                    "from"@,
                    "authority"@,
                ]));
            }
            r.push(fact);
            assert(r@.map_values(|c: CpiCall| cpi_view(c)) =~= s2 + seq![
                cpi_view(r@[r@.len() - 1]),
            ]);
        }
        let ghost s3 = r@.map_values(|c: CpiCall| cpi_view(c));
        assert(s3 =~= s2 + (if contains_seq(b, "token::burn"@) {
            seq![("token_program"@, "burn"@, seq!["mint"@, "from"@, "authority"@])]
        } else {
            Seq::empty()
        }));
        if contains_in(&body, &p_sys) || contains_in(&body, &p_cap) {
            let fact = CpiCall {
                target_program: String::from_str("system_program"),
                instruction: String::from_str("transfer"),
                accounts: roles2("from", "to"),
            };
            proof {
                assert(cpi_view(fact) == ("system_program"@, "transfer"@, seq!["from"@, "to"@]));
            }
            r.push(fact);
            assert(r@.map_values(|c: CpiCall| cpi_view(c)) =~= s3 + seq![
                cpi_view(r@[r@.len() - 1]),
            ]);
        }
        let ghost s4 = r@.map_values(|c: CpiCall| cpi_view(c));
        assert(s4 =~= s3 + (if contains_seq(b, "system_program::transfer"@) || contains_seq(
            b,
            "Transfer"@,
        ) {
            seq![("system_program"@, "transfer"@, seq!["from"@, "to"@])]
        } else {
            Seq::empty()
        }));
        assert(s4 =~= pre + spec_cpi_of_body(b));
    }
    proof {
        assert(spec_cpi_facts(program.instructions@, n as int) =~= Seq::<
            (Seq<char>, Seq<char>, Seq<Seq<char>>),
        >::empty());
        assert(r@.map_values(|c: CpiCall| cpi_view(c)) =~= whole);
        assert forall|i: int| 0 <= i < r@.len() implies cpi_view(#[trigger] r@[i]) == whole[i] by {
            assert(r@.map_values(|c: CpiCall| cpi_view(c))[i] == cpi_view(r@[i]));
        }
    }
    r
}

/// Uses the layout engine on every state record: one size fact per record,
/// holding the record name, the clamped total of header plus field sizes,
/// and each field's name and size.
pub fn calculate_sizes(program: &AnchorProgram) -> (r: Vec<AccountSize>)
    ensures
        r@.len() == program.state_structs@.len(),
        forall|k: int|
            0 <= k < r@.len() ==> {
                let s = #[trigger] program.state_structs@[k];
                let a = r@[k];
                a.struct_name@ == s.name@ && a.size as nat == sat_usize(
                    8 + sum_seq(spec_field_sizes(s.fields@)),
                ) && a.fields@.len() == s.fields@.len() && forall|f: int|
                    0 <= f < s.fields@.len() ==> (#[trigger] a.fields@[f]).0@
                        == s.fields@[f].name@ && a.fields@[f].1 as nat == sat_usize(
                        spec_record_field_size(s.fields@[f].ty@, s.fields@[f].max_len),
                    )
            },
{
    let n = program.state_structs.len();
    let mut r: Vec<AccountSize> = Vec::new();
    for k in 0..n
        invariant
            n == program.state_structs@.len(),
            r@.len() == k,
            forall|m: int|
                0 <= m < k ==> {
                    let s = #[trigger] program.state_structs@[m];
                    let a = r@[m];
                    a.struct_name@ == s.name@ && a.size as nat == sat_usize(
                        8 + sum_seq(spec_field_sizes(s.fields@)),
                    ) && a.fields@.len() == s.fields@.len() && forall|f: int|
                        0 <= f < s.fields@.len() ==> (#[trigger] a.fields@[f]).0@
                            == s.fields@[f].name@ && a.fields@[f].1 as nat == sat_usize(
                            spec_record_field_size(s.fields@[f].ty@, s.fields@[f].max_len),
                        )
                },
    {
        let state = &program.state_structs[k];
        let nf = state.fields.len();
        let mut total: usize = 8;
        let mut fields: Vec<(String, usize)> = Vec::new();
        let ghost sizes = spec_field_sizes(state.fields@);
        assert(sizes.take(0) =~= Seq::<nat>::empty());
        for f in 0..nf
            invariant
                nf == state.fields@.len(),
                state.fields@ == program.state_structs@[k as int].fields@,
                sizes == spec_field_sizes(state.fields@),
                total as nat == sat_usize(8 + sum_seq(sizes.take(f as int))),
                fields@.len() == f,
                forall|m: int|
                    0 <= m < f ==> (#[trigger] fields@[m]).0@ == state.fields@[m].name@
                        && fields@[m].1 as nat == sat_usize(
                        spec_record_field_size(state.fields@[m].ty@, state.fields@[m].max_len),
                    ),
        {
            let fld = &state.fields[f];
            let fsize = record_field_size(fld.ty.as_str(), fld.max_len);
            fields.push((fld.name.clone(), fsize));
            proof {
                crate::layout::lemma_sum_take_step(sizes, f as int);
                assert(sizes[f as int] == spec_record_field_size(
                    state.fields@[f as int].ty@,
                    state.fields@[f as int].max_len,
                ));
            }
            total = match total.checked_add(fsize) {
                Some(t) => t,
                None => usize::MAX,
            };
        }
        assert(sizes.take(nf as int) =~= sizes);
        r.push(AccountSize { struct_name: state.name.clone(), size: total, fields });
    }
    r
}

/// Runs the whole analysis: PDA facts, call-shape facts, and record sizes,
/// each pinned exactly as its own extractor states.  Pure and
/// deterministic; it has no failure mode — absence of a fact is not an
/// error — and the fact set is complete before any transformation reads it.
pub fn analyze(program: &AnchorProgram) -> (r: ProgramAnalysis)
    ensures
        r.pdas@.len() == spec_extract_pdas(*program).len(),
        forall|i: int|
            0 <= i < r.pdas@.len() ==> pda_view(#[trigger] r.pdas@[i]) == spec_extract_pdas(
                *program,
            )[i],
        forall|i: int| 0 <= i < r.pdas@.len() ==> (#[trigger] r.pdas@[i]).program_id@
            == "program_id"@,
        r.cpi_calls@.len() == spec_cpi_facts(program.instructions@, 0).len(),
        forall|i: int|
            0 <= i < r.cpi_calls@.len() ==> cpi_view(#[trigger] r.cpi_calls@[i]) == spec_cpi_facts(
                program.instructions@,
                0,
            )[i],
        r.account_sizes@.len() == program.state_structs@.len(),
        forall|k: int|
            0 <= k < r.account_sizes@.len() ==> {
                let s = #[trigger] program.state_structs@[k];
                let a = r.account_sizes@[k];
                a.struct_name@ == s.name@ && a.size as nat == sat_usize(
                    8 + sum_seq(spec_field_sizes(s.fields@)),
                ) && a.fields@.len() == s.fields@.len() && forall|f: int|
                    0 <= f < s.fields@.len() ==> (#[trigger] a.fields@[f]).0@
                        == s.fields@[f].name@ && a.fields@[f].1 as nat == sat_usize(
                        spec_record_field_size(s.fields@[f].ty@, s.fields@[f].max_len),
                    )
            },
{
    let pdas = extract_pdas(program);
    let cpi_calls = extract_cpi_calls(program);
    let account_sizes = calculate_sizes(program);
    ProgramAnalysis { pdas, cpi_calls, account_sizes }
}

} // verus!
