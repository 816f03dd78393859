//! Text templates for explicit cross-program calls in the target convention:
//! token transfer, token mint, token burn, direct native-asset transfer, and
//! state deserialization statements.

use vstd::prelude::*;
use crate::text::{append_str, chars_of, string_of};

verus! {

/// The indented seed lines of a signer-seed block, one per seed expression,
/// joined by line breaks.
pub open spec fn spec_seeds_block(ss: Seq<Seq<char>>, i: int) -> Seq<char>
    decreases ss.len() - i,
{
    if i < 0 || i >= ss.len() {
        Seq::empty()
    } else {
        let line = "        "@ + ss[i] + ","@;
        if i == ss.len() - 1 {
            line
        } else {
            line + "\n"@ + spec_seeds_block(ss, i + 1)
        }
    }
}

fn seeds_block(ss: &Vec<String>) -> (r: Vec<char>)
    ensures
        r@ == spec_seeds_block(ss.deep_view(), 0),
    decreases ss@.len(),
{
    let mut out: Vec<char> = Vec::new();
    let n = ss.len();
    if n == 0 {
        return out;
    }
    for i in 0..n
        invariant
            n == ss@.len(),
            n >= 1,
            out@ + spec_seeds_block(ss.deep_view(), i as int) == spec_seeds_block(
                ss.deep_view(),
                0,
            ) || (i == n && out@ == spec_seeds_block(ss.deep_view(), 0)),
            i < n ==> out@ + spec_seeds_block(ss.deep_view(), i as int) == spec_seeds_block(
                ss.deep_view(),
                0,
            ),
    {
        let ghost pre = out@;
        append_str(&mut out, "        ");
        let sv = chars_of(ss[i].as_str());
        let mut k: usize = 0;
        while k < sv.len()
            invariant
                k <= sv@.len(),
                sv@ == ss.deep_view()[i as int],
                out@ == pre + "        "@ + sv@.subrange(0, k as int),
            decreases sv@.len() - k,
        {
            out.push(sv[k]);
            k += 1;
        }
        assert(sv@.subrange(0, sv@.len() as int) =~= sv@);
        append_str(&mut out, ",");
        if i + 1 < n {
            append_str(&mut out, "\n");
            assert(out@ + spec_seeds_block(ss.deep_view(), i + 1) =~= pre + spec_seeds_block(
                ss.deep_view(),
                i as int,
            ));
        } else {
            assert(out@ =~= pre + spec_seeds_block(ss.deep_view(), i as int));
        }
    }
    out
}

/// The token-transfer statement generated for the given accounts and amount:
/// with a signer-seed block when PDA authorization is requested and seeds are
/// supplied, a plain invocation otherwise.
pub open spec fn spec_token_transfer_cpi(
    from: Seq<char>,
    to: Seq<char>,
    authority: Seq<char>,
    amount: Seq<char>,
    with_signer: bool,
    seeds: Option<Seq<Seq<char>>>,
) -> Seq<char> {
    if with_signer && seeds is Some {
        "// Token transfer with PDA signer\n    Transfer {\n        from: "@ + from
            + ",\n        to: "@ + to + ",\n        authority: "@ + authority
            + ",\n        amount: "@ + amount + ",\n    }.invoke_signed(\n        &[&[\n"@
            + spec_seeds_block(seeds->Some_0, 0) + "\n        ]],\n    )?;\n"@
    } else {
        "// Token transfer\n    Transfer {\n        from: "@ + from + ",\n        to: "@ + to
            + ",\n        authority: "@ + authority + ",\n        amount: "@ + amount
            + ",\n    }.invoke()?;\n"@
    }
}

/// Generates a token-transfer call statement.
pub fn token_transfer_cpi(
    from_account: &str,
    to_account: &str,
    authority: &str,
    amount: &str,
    with_signer: bool,
    signer_seeds: Option<&Vec<String>>,
) -> (r: String)
    ensures
        r@ == spec_token_transfer_cpi(
            from_account@,
            to_account@,
            authority@,
            amount@,
            with_signer,
            match signer_seeds {
                Some(ss) => Some(ss.deep_view()),
                None => None,
            },
        ),
{
    let mut out: Vec<char> = Vec::new();
    match (with_signer, signer_seeds) {
        (true, Some(ss)) => {
            append_str(&mut out, "// Token transfer with PDA signer\n    Transfer {\n        from: ");
            append_str(&mut out, from_account);
            append_str(&mut out, ",\n        to: ");
            append_str(&mut out, to_account);
            append_str(&mut out, ",\n        authority: ");
            append_str(&mut out, authority);
            append_str(&mut out, ",\n        amount: ");
            append_str(&mut out, amount);
            append_str(&mut out, ",\n    }.invoke_signed(\n        &[&[\n");
            let block = seeds_block(ss);
            let mut k: usize = 0;
            let ghost pre = out@;
            while k < block.len()
                invariant
                    k <= block@.len(),
                    out@ == pre + block@.subrange(0, k as int),
                decreases block@.len() - k,
            {
                out.push(block[k]);
                k += 1;
            }
            assert(block@.subrange(0, block@.len() as int) =~= block@);
            append_str(&mut out, "\n        ]],\n    )?;\n");
        },
        _ => {
            append_str(&mut out, "// Token transfer\n    Transfer {\n        from: ");
            append_str(&mut out, from_account);
            append_str(&mut out, ",\n        to: ");
            append_str(&mut out, to_account);
            append_str(&mut out, ",\n        authority: ");
            append_str(&mut out, authority);
            append_str(&mut out, ",\n        amount: ");
            append_str(&mut out, amount);
            append_str(&mut out, ",\n    }.invoke()?;\n");
        },
    }
    string_of(&out)
}

/// The token-mint statement generated for the given accounts and amount.
pub open spec fn spec_token_mint_to_cpi(
    mint: Seq<char>,
    to: Seq<char>,
    authority: Seq<char>,
    amount: Seq<char>,
    with_signer: bool,
    seeds: Option<Seq<Seq<char>>>,
) -> Seq<char> {
    if with_signer && seeds is Some {
        "// Mint tokens with PDA signer\n    MintTo {\n        mint: "@ + mint
            + ",\n        account: "@ + to + ",\n        mint_authority: "@ + authority
            + ",\n        amount: "@ + amount + ",\n    }.invoke_signed(\n        &[&[\n"@
            + spec_seeds_block(seeds->Some_0, 0) + "\n        ]],\n    )?;\n"@
    } else {
        "// Mint tokens\n    MintTo {\n        mint: "@ + mint + ",\n        account: "@ + to
            + ",\n        mint_authority: "@ + authority + ",\n        amount: "@ + amount
            + ",\n    }.invoke()?;\n"@
    }
}

/// Generates a token-mint call statement.
pub fn token_mint_to_cpi(
    mint_account: &str,
    to_account: &str,
    authority: &str,
    amount: &str,
    with_signer: bool,
    signer_seeds: Option<&Vec<String>>,
) -> (r: String)
    ensures
        r@ == spec_token_mint_to_cpi(
            mint_account@,
            to_account@,
            authority@,
            amount@,
            with_signer,
            match signer_seeds {
                Some(ss) => Some(ss.deep_view()),
                None => None,
            },
        ),
{
    let mut out: Vec<char> = Vec::new();
    match (with_signer, signer_seeds) {
        (true, Some(ss)) => {
            append_str(&mut out, "// Mint tokens with PDA signer\n    MintTo {\n        mint: ");
            append_str(&mut out, mint_account);
            append_str(&mut out, ",\n        account: ");
            append_str(&mut out, to_account);
            append_str(&mut out, ",\n        mint_authority: ");
            append_str(&mut out, authority);
            append_str(&mut out, ",\n        amount: ");
            append_str(&mut out, amount);
            append_str(&mut out, ",\n    }.invoke_signed(\n        &[&[\n");
            let block = seeds_block(ss);
            let mut k: usize = 0;
            let ghost pre = out@;
            while k < block.len()
                invariant
                    k <= block@.len(),
                    out@ == pre + block@.subrange(0, k as int),
                decreases block@.len() - k,
            {
                out.push(block[k]);
                k += 1;
            }
            assert(block@.subrange(0, block@.len() as int) =~= block@);
            append_str(&mut out, "\n        ]],\n    )?;\n");
        },
        _ => {
            append_str(&mut out, "// Mint tokens\n    MintTo {\n        mint: ");
            append_str(&mut out, mint_account);
            append_str(&mut out, ",\n        account: ");
            append_str(&mut out, to_account);
            append_str(&mut out, ",\n        mint_authority: ");
            append_str(&mut out, authority);
            append_str(&mut out, ",\n        amount: ");
            append_str(&mut out, amount);
            append_str(&mut out, ",\n    }.invoke()?;\n");
        },
    }
    string_of(&out)
}

/// The token-burn statement generated for the given accounts and amount.
pub open spec fn spec_token_burn_cpi(
    mint: Seq<char>,
    from: Seq<char>,
    authority: Seq<char>,
    amount: Seq<char>,
) -> Seq<char> {
    "// Burn tokens\n    Burn {\n        account: "@ + from + ",\n        mint: "@ + mint
        + ",\n        authority: "@ + authority + ",\n        amount: "@ + amount
        + ",\n    }.invoke()?;\n"@
}

/// Generates a token-burn call statement.
pub fn token_burn_cpi(mint_account: &str, from_account: &str, authority: &str, amount: &str) -> (r:
    String)
    ensures
        r@ == spec_token_burn_cpi(mint_account@, from_account@, authority@, amount@),
{
    let mut out: Vec<char> = Vec::new();
    append_str(&mut out, "// Burn tokens\n    Burn {\n        account: ");
    append_str(&mut out, from_account);
    append_str(&mut out, ",\n        mint: ");
    append_str(&mut out, mint_account);
    append_str(&mut out, ",\n        authority: ");
    append_str(&mut out, authority);
    append_str(&mut out, ",\n        amount: ");
    append_str(&mut out, amount);
    append_str(&mut out, ",\n    }.invoke()?;\n");
    string_of(&out)
}

/// The direct native-asset transfer: lamports moved straight between the two
/// accounts' balances.
pub open spec fn spec_sol_transfer_cpi(from: Seq<char>, to: Seq<char>, amount: Seq<char>) -> Seq<
    char,
> {
    "// SOL transfer\n    **"@ + from + ".try_borrow_mut_lamports()? -= "@ + amount + ";\n    **"@
        + to + ".try_borrow_mut_lamports()? += "@ + amount + ";"@
}

/// Generates a direct native-asset transfer statement pair.
pub fn sol_transfer_cpi(from_account: &str, to_account: &str, amount: &str) -> (r: String)
    ensures
        r@ == spec_sol_transfer_cpi(from_account@, to_account@, amount@),
{
    let mut out: Vec<char> = Vec::new();
    append_str(&mut out, "// SOL transfer\n    **");
    append_str(&mut out, from_account);
    append_str(&mut out, ".try_borrow_mut_lamports()? -= ");
    append_str(&mut out, amount);
    append_str(&mut out, ";\n    **");
    append_str(&mut out, to_account);
    append_str(&mut out, ".try_borrow_mut_lamports()? += ");
    append_str(&mut out, amount);
    append_str(&mut out, ";");
    string_of(&out)
}

/// The read-only deserialize-at-entry statement for a state account.
pub open spec fn spec_state_deserialize_read(state_type: Seq<char>, account: Seq<char>) -> Seq<
    char,
> {
    "let "@ + account + "_state = "@ + state_type + "::from_account_info("@ + account + ")?;"@
}

/// Generates the read-only deserialize-at-entry statement.
pub fn state_deserialize_read(state_type: &str, account_name: &str) -> (r: String)
    ensures
        r@ == spec_state_deserialize_read(state_type@, account_name@),
{
    let mut out: Vec<char> = Vec::new();
    append_str(&mut out, "let ");
    append_str(&mut out, account_name);
    append_str(&mut out, "_state = ");
    append_str(&mut out, state_type);
    append_str(&mut out, "::from_account_info(");
    append_str(&mut out, account_name);
    append_str(&mut out, ")?;");
    string_of(&out)
}

/// The mutable deserialize-at-entry statement for a state account, with a
/// `mut` binding when the state is assigned later in the body.
pub open spec fn spec_state_deserialize_write(
    state_type: Seq<char>,
    account: Seq<char>,
    needs_mut: bool,
) -> Seq<char> {
    if needs_mut {
        "let mut "@ + account + "_state = "@ + state_type + "::from_account_info_mut("@ + account
            + ")?;"@
    } else {
        "let "@ + account + "_state = "@ + state_type + "::from_account_info_mut("@ + account
            + ")?;"@
    }
}

/// Generates the mutable deserialize-at-entry statement.
pub fn state_deserialize_write(state_type: &str, account_name: &str, needs_mut: bool) -> (r: String)
    ensures
        r@ == spec_state_deserialize_write(state_type@, account_name@, needs_mut),
{
    let mut out: Vec<char> = Vec::new();
    if needs_mut {
        append_str(&mut out, "let mut ");
    } else {
        append_str(&mut out, "let ");
    }
    append_str(&mut out, account_name);
    append_str(&mut out, "_state = ");
    append_str(&mut out, state_type);
    append_str(&mut out, "::from_account_info_mut(");
    append_str(&mut out, account_name);
    append_str(&mut out, ")?;");
    string_of(&out)
}

} // verus!
