use uncpi::codegen::{
    apply_unsafe_math_to_helpers, clean_helper_body, clean_helper_signature, fix_msg_macros,
    get_arg_parse_code, has_comma_outside_strings, to_screaming_snake, to_screaming_snake_str,
};
use uncpi::cpi_helpers::{
    sol_transfer_cpi, state_deserialize_read, state_deserialize_write, token_burn_cpi,
    token_transfer_cpi,
};
use uncpi::ir::{AnchorStateStruct, StateField};
use uncpi::zero_copy::{
    estimate_state_size, generate_safety_doc, should_use_zero_copy, transform_account_loader_usage,
};
use uncpi::transformer::{transform_state, get_state_type};
use uncpi::analyzer::analyze;
use uncpi::base58::bs58_decode;
use uncpi::parsing::{
    extract_constraint, extract_generic, extract_has_one, extract_seeds, extract_value,
    extract_value_optional,
};

#[test]
fn test_safety_doc_generation() {
    let doc = generate_safety_doc(true);
    assert!(doc.contains("packed"));
    assert!(doc.contains("alignment"));
}

#[test]
fn test_zero_copy_flags() {
    let state = AnchorStateStruct {
        name: "Big".to_string(),
        fields: vec![],
        has_init_space: false,
        is_zero_copy: true,
    };
    assert!(should_use_zero_copy(&state));
    assert_eq!(estimate_state_size(&state), 0);
    assert_eq!(transform_account_loader_usage("pool.load()?", &vec![]), "pool.load()?");
}

#[test]
fn test_screaming_snake() {
    assert_eq!(to_screaming_snake_str("createPool"), "CREATE_POOL");
    assert_eq!(to_screaming_snake("add_liquidity"), "ADD_LIQUIDITY");
}

#[test]
fn test_helper_cleanup() {
    assert_eq!(
        clean_helper_signature("fn f(p: & StablePool) -> Result<u64>"),
        "fn f(p: &StablePool) -> Result<u64, ProgramError>"
    );
    assert_eq!(
        clean_helper_body("{ StableSwapError::Bad ; Clock :: get () ? ; std::cmp::min(a, b) }"),
        "{ Error::Bad ; Clock::get()? ; core::cmp::min(a, b) }"
    );
    assert_eq!(apply_unsafe_math_to_helpers("a + b"), "a + b");
}

#[test]
fn test_comma_outside_strings() {
    assert!(has_comma_outside_strings("\"hello {}\", x"));
    assert!(!has_comma_outside_strings("\"hello, world\""));
    assert!(!has_comma_outside_strings("\"escaped \\\", quote\""));
}

#[test]
fn test_fix_msg_macros_disables_structured_calls() {
    let joined = fix_msg_macros("msg!(\"v = {}\",\n    v);");
    assert!(joined.contains("// msg!(\"v = {}\", v)"));
    let plain = fix_msg_macros("msg!(\"hello\");");
    assert!(plain.contains("msg!(\"hello\")"));
    assert!(!plain.contains("// msg!"));
}

#[test]
fn test_arg_parse_lines() {
    let (size, line) = get_arg_parse_code("u64", 8, "amount");
    assert_eq!(size, 8);
    assert_eq!(
        line,
        "let amount = u64::from_le_bytes(data.get(8..16).ok_or(ProgramError::InvalidInstructionData)?.try_into().unwrap());"
    );
    let (bsize, bline) = get_arg_parse_code("bool", 0, "flag");
    assert_eq!(bsize, 1);
    assert!(bline.contains("!= 0;"));
    let (ksize, kline) = get_arg_parse_code("Pubkey", 1, "owner");
    assert_eq!(ksize, 32);
    assert!(kline.contains("data.get(1..33)"));
    let (usize_, uline) = get_arg_parse_code("Custom", 0, "thing");
    assert_eq!(usize_, 0);
    assert!(uline.contains("TODO: Parse"));
}

#[test]
fn test_cpi_templates() {
    let t = token_transfer_cpi("from_v", "to_v", "auth", "amount", false, None);
    assert!(t.contains("from: from_v,"));
    assert!(t.contains(".invoke()?;"));
    let seeds = vec!["b\"pool\"".to_string(), "bump_bytes".to_string()];
    let ts = token_transfer_cpi("from_v", "to_v", "auth", "amount", true, Some(&seeds));
    assert!(ts.contains(".invoke_signed("));
    assert!(ts.contains("        b\"pool\","));
    let b = token_burn_cpi("mint_v", "from_v", "auth", "amount");
    assert!(b.contains("account: from_v,"));
    assert!(b.contains("mint: mint_v,"));
    let s = sol_transfer_cpi("a", "b", "lamports");
    assert!(s.contains("**a.try_borrow_mut_lamports()? -= lamports;"));
    assert!(s.contains("**b.try_borrow_mut_lamports()? += lamports;"));
    assert_eq!(
        state_deserialize_read("Pool", "pool"),
        "let pool_state = Pool::from_account_info(pool)?;"
    );
    assert_eq!(
        state_deserialize_write("Pool", "pool", true),
        "let mut pool_state = Pool::from_account_info_mut(pool)?;"
    );
}

#[test]
fn test_state_type_guess() {
    assert_eq!(get_state_type("pool"), "StablePool");
    assert_eq!(get_state_type("farming_period"), "FarmingPeriod");
    assert_eq!(get_state_type("user_escrow"), "UserEscrow");
}

#[test]
fn test_record_layout_offsets_increase() {
    let program = uncpi::ir::AnchorProgram {
        name: "demo".to_string(),
        program_id: None,
        instructions: vec![],
        account_structs: vec![],
        state_structs: vec![AnchorStateStruct {
            name: "Pool".to_string(),
            fields: vec![
                StateField { name: "a".to_string(), ty: "u8".to_string(), max_len: None },
                StateField { name: "b".to_string(), ty: "u64".to_string(), max_len: None },
                StateField { name: "c".to_string(), ty: "Pubkey".to_string(), max_len: None },
            ],
            has_init_space: false,
            is_zero_copy: false,
        }],
        errors: vec![],
    };
    let analysis = analyze(&program);
    let state = transform_state(&program.state_structs[0], &analysis);
    assert_eq!(state.size, 8 + 1 + 8 + 32);
    assert_eq!(state.fields[0].offset, 8);
    assert_eq!(state.fields[1].offset, 9);
    assert_eq!(state.fields[2].offset, 17);
    assert!(state.fields[0].offset < state.fields[1].offset);
    assert!(state.fields[1].offset < state.fields[2].offset);
    assert_eq!(state.fields[2].ty, "[u8; 32]");
}

#[test]
fn test_parsing_helpers() {
    assert_eq!(extract_value("init, payer = authority, space = 8", "payer"), "authority");
    assert_eq!(extract_value_optional("mut", "payer"), None);
    assert_eq!(extract_generic("Account<'info, Pool>", "Account"), "Pool");
    assert_eq!(extract_generic("Signer<'info>", "Account"), "");
    assert_eq!(
        extract_seeds("seeds = [b\"pool\", owner.key().as_ref()], bump"),
        vec!["b\"pool\"".to_string(), "owner.key().as_ref()".to_string()]
    );
    // The balanced scan ends a value at an at-sign, so the error never
    // reaches the expression text.
    let (expr, err) = extract_constraint("constraint = a > b @ Error::Bad");
    assert_eq!(expr, "a > b");
    assert_eq!(err, None);
    let (f, e2) = extract_has_one("has_one = authority");
    assert_eq!(f, "authority");
    assert_eq!(e2, None);
}

#[test]
fn test_bs58_decode_values() {
    // The zero character is not a digit.
    assert_eq!(bs58_decode("O"), None);
    assert_eq!(bs58_decode("0"), None);
    // The unit digit denotes zero and forces a leading zero byte.
    let one = bs58_decode("1").unwrap();
    assert_eq!(one, vec![0u8; 32]);
    // "2" denotes one.
    let two = bs58_decode("2").unwrap();
    assert_eq!(two.len(), 32);
    assert_eq!(two[31], 1);
    assert!(two[..31].iter().all(|&b| b == 0));
    // "21" denotes 1 * 58 + 0 = 58.
    let x = bs58_decode("21").unwrap();
    assert_eq!(x[31], 58);
    assert!(x[..31].iter().all(|&b| b == 0));
    // "z" is the largest digit, 57.
    let z = bs58_decode("z").unwrap();
    assert_eq!(z[31], 57);
}

