use uncpi::collections::{generate_vec_helpers, transform_vec_operations};
use uncpi::ir::{
    AccountConstraint, AccountType, AnchorAccount, AnchorAccountStruct, AnchorInstruction,
    AnchorProgram, PinocchioAccount, Validation, VecField,
};
use uncpi::transformer::{
    generate_validations, pda_check_strategy, transform, transform_body,
    transform_state_access_final, Config, TransformError,
};
use uncpi::analyzer::analyze;

fn pubkey_vec(name: &str, max_len: Option<usize>) -> VecField {
    VecField {
        name: name.to_string(),
        element_type: "Pubkey".to_string(),
        max_len,
        resolved_max_len: max_len.unwrap_or(0),
        is_mutable: true,
    }
}

#[test]
fn test_transform_vec_len() {
    let vec_field = pubkey_vec("items", Some(10));
    let body = "let count = items.len();";
    let transformed = transform_vec_operations(body, &[vec_field]);
    assert!(transformed.contains("items_len as usize"));
}

#[test]
fn test_transform_vec_is_empty() {
    let vec_field = pubkey_vec("items", Some(10));
    let body = "if items.is_empty() { return; }";
    let transformed = transform_vec_operations(body, &[vec_field]);
    assert!(transformed.contains("(items_len == 0)"));
}

#[test]
fn test_transform_vec_iter() {
    let vec_field = pubkey_vec("signers", Some(10));
    let body = "for signer in signers.iter() {}";
    let transformed = transform_vec_operations(body, &[vec_field]);
    assert!(transformed.contains("signers[..signers_len as usize].iter()"));
}

#[test]
fn test_transform_vec_push_is_bounds_checked() {
    // Appending beyond capacity must become an explicit error return.
    let vec_field = pubkey_vec("signers", Some(10));
    let body = "signers.push(key);";
    let transformed = transform_vec_operations(body, &[vec_field]);
    assert!(transformed.contains("signers_len as usize) >= 10"));
    assert!(transformed.contains("return Err(ProgramError::Custom(0));"));
    assert!(transformed.contains("signers_len += 1;"));
}

#[test]
fn test_transform_vec_remove_shifts_left() {
    let vec_field = pubkey_vec("items", Some(4));
    let body = "items.remove(idx0);";
    let transformed = transform_vec_operations(body, &[vec_field]);
    assert!(transformed.contains("items[i] = items[i + 1];"));
    assert!(transformed.contains("items_len -= 1;"));
}

#[test]
fn test_generate_vec_helpers_accessors() {
    let vec_field = pubkey_vec("signers", Some(5));
    let helpers = generate_vec_helpers("Multisig", &[vec_field]);
    assert!(helpers.contains("impl Multisig"));
    assert!(helpers.contains("pub fn push_signers"));
    assert!(helpers.contains("return Err(ProgramError::Custom(0)); // VecOverflow"));
    assert!(helpers.contains("pub fn signers_len"));
    assert!(helpers.contains("pub fn signers_is_empty"));
    assert!(helpers.contains("pub fn clear_signers"));
    assert!(helpers.contains("self.signers[..self.signers_len as usize].iter()"));
}

fn signer_account(name: &str) -> AnchorAccount {
    AnchorAccount {
        name: name.to_string(),
        ty: AccountType::Signer,
        constraints: vec![],
    }
}

fn mutable_account(name: &str) -> AnchorAccount {
    AnchorAccount {
        name: name.to_string(),
        ty: AccountType::Account { inner: "Pool".to_string() },
        constraints: vec![AccountConstraint::Mut],
    }
}

#[test]
fn test_validation_order_and_roles() {
    // A mutable non-signer account yields exactly one writable check and no
    // signer check, and validations keep declaration order.
    let group = AnchorAccountStruct {
        name: "Deposit".to_string(),
        instruction_args: vec![],
        accounts: vec![signer_account("payer"), mutable_account("pool")],
    };
    let validations = generate_validations(&group);
    assert_eq!(validations.len(), 2);
    match &validations[0] {
        Validation::IsSigner { account_idx } => assert_eq!(*account_idx, 0),
        _ => panic!("expected the signer check first"),
    }
    match &validations[1] {
        Validation::IsWritable { account_idx } => assert_eq!(*account_idx, 1),
        _ => panic!("expected the writable check second"),
    }
    let signer_checks = validations.iter().filter(|v| matches!(v, Validation::IsSigner { .. })).count();
    let writable_checks = validations.iter().filter(|v| matches!(v, Validation::IsWritable { .. })).count();
    assert_eq!(signer_checks, 1);
    assert_eq!(writable_checks, 1);
}

#[test]
fn test_pda_validation_generated() {
    let pda = AnchorAccount {
        name: "vault".to_string(),
        ty: AccountType::Account { inner: "Vault".to_string() },
        constraints: vec![
            AccountConstraint::Seeds(vec!["b\"vault\"".to_string()]),
            AccountConstraint::Bump(Some("vault . bump".to_string())),
        ],
    };
    let group = AnchorAccountStruct {
        name: "Open".to_string(),
        instruction_args: vec![],
        accounts: vec![pda],
    };
    let validations = generate_validations(&group);
    assert_eq!(validations.len(), 1);
    match &validations[0] {
        Validation::PdaCheck { account_idx, seeds, bump } => {
            assert_eq!(*account_idx, 0);
            assert_eq!(seeds, &vec!["b\"vault\"".to_string()]);
            assert_eq!(bump, &Some("vault . bump".to_string()));
        },
        _ => panic!("expected a PDA check"),
    }
}

fn plain_target_account(name: &str, is_init: bool) -> PinocchioAccount {
    PinocchioAccount {
        name: name.to_string(),
        index: 0,
        is_signer: false,
        is_writable: true,
        is_pda: true,
        pda_seeds: None,
        is_init,
        token_mint: None,
        token_authority: None,
        init_payer: None,
    }
}

#[test]
fn test_pda_branch_selection() {
    // An externally-supplied, non-self-referential bump reconstructs from
    // the bump; initialization or self-reference derives and compares.
    let seeds = vec!["b\"vault\"".to_string(), "owner.key()".to_string()];
    let external_bump = Some("passed_bump".to_string());
    assert!(!pda_check_strategy(&plain_target_account("vault", false), &seeds, &external_bump));

    assert!(pda_check_strategy(&plain_target_account("vault", true), &seeds, &external_bump));

    let no_bump: Option<String> = None;
    assert!(pda_check_strategy(&plain_target_account("vault", false), &seeds, &no_bump));

    let self_seeds = vec!["vault . key".to_string()];
    assert!(pda_check_strategy(&plain_target_account("vault", false), &self_seeds, &external_bump));

    let self_bump = Some("vault . bump".to_string());
    assert!(pda_check_strategy(&plain_target_account("vault", false), &seeds, &self_bump));
}

fn demo_config() -> Config {
    Config {
        no_alloc: false,
        lazy_entrypoint: false,
        inline_cpi: false,
        anchor_compat: true,
        no_logs: false,
        unsafe_math: false,
    }
}

fn instruction(name: &str, body: &str) -> AnchorInstruction {
    AnchorInstruction {
        name: name.to_string(),
        accounts_struct: "Empty".to_string(),
        args: vec![],
        body: body.to_string(),
    }
}

fn demo_program(names: &[&str]) -> AnchorProgram {
    AnchorProgram {
        name: "demo".to_string(),
        program_id: Some("Demo111".to_string()),
        instructions: names.iter().map(|n| instruction(n, "{ }")).collect(),
        account_structs: vec![],
        state_structs: vec![],
        errors: vec![],
    }
}

#[test]
fn test_transform_distinct_discriminators() {
    let program = demo_program(&["initialize", "deposit"]);
    let analysis = analyze(&program);
    let out = transform(&program, &analysis, &demo_config()).expect("no collision");
    assert_eq!(out.instructions.len(), 2);
    assert_eq!(out.instructions[0].discriminator.len(), 8);
    assert_ne!(out.instructions[0].discriminator, out.instructions[1].discriminator);
}

#[test]
fn test_transform_detects_discriminator_collision() {
    let program = demo_program(&["deposit", "deposit"]);
    let analysis = analyze(&program);
    let r = transform(&program, &analysis, &demo_config());
    assert_eq!(r, Err(TransformError::DiscriminatorCollision));
}

#[test]
fn test_transform_reruns_identically() {
    // Re-running the pipeline on the same model and configuration yields a
    // byte-identical target-form model.
    let mut program = demo_program(&["initialize", "deposit"]);
    program.instructions[0].body =
        "{ require!(amount > 0, Error::BadAmount); msg!(\"ok\"); Ok(()) }".to_string();
    let analysis = analyze(&program);
    let first = transform(&program, &analysis, &demo_config()).expect("first run");
    let second = transform(&program, &analysis, &demo_config()).expect("second run");
    assert_eq!(first, second);
}

fn one_account() -> Vec<PinocchioAccount> {
    vec![PinocchioAccount {
        name: "user".to_string(),
        index: 0,
        is_signer: true,
        is_writable: false,
        is_pda: false,
        pda_seeds: None,
        is_init: false,
        token_mint: None,
        token_authority: None,
        init_payer: None,
    }]
}

#[test]
fn test_body_flattens_context_access() {
    let cfg = demo_config();
    let out = transform_body("{ let who = ctx.accounts.user.key() ; Ok(()) }", &one_account(), &cfg);
    assert!(out.contains("user.key()"));
    assert!(!out.contains("ctx.accounts"));
}

#[test]
fn test_body_lowers_assertions() {
    let cfg = demo_config();
    let out = transform_body(
        "{ require!(amount > 0, Error::BadAmount); Ok(()) }",
        &one_account(),
        &cfg,
    );
    // The bulk normalization tightens comparison spacing before lowering.
    assert!(out.contains("if !(amount> 0)"));
    assert!(out.contains("return Err(Error::BadAmount.into());"));
    assert!(!out.contains("require!"));
}

#[test]
fn test_body_strips_diagnostics_when_configured() {
    let mut cfg = demo_config();
    cfg.no_logs = true;
    let out = transform_body("{ msg!(\"hello\"); Ok(()) }", &one_account(), &cfg);
    assert!(!out.contains("msg!"));
}

#[test]
fn test_body_removes_bounded_allocation() {
    let cfg = demo_config();
    let body = "{ let mut data = Vec::with_capacity(48) ; data.extend_from_slice(&salt) ; Ok(()) }";
    let out = transform_body(body, &one_account(), &cfg);
    assert!(out.contains("[0u8; 48]"));
    assert!(out.contains("data[16..48].copy_from_slice(&salt);"));
    assert!(!out.contains("with_capacity"));
}

#[test]
fn test_body_rewrites_period_seeds() {
    let cfg = demo_config();
    let body = "{ let period_seeds = & [b\"farming_period\".as_ref (), pool_key.as_ref (), start_time_bytes.as_ref (), &[bump],] ; Ok(()) }";
    let out = transform_body(body, &one_account(), &cfg);
    assert!(out.contains("pinocchio::instruction::Seed::from(b\"farming_period\" as &[u8])"));
    assert!(out.contains("let period_bump_bytes = [bump];"));
}

#[test]
fn test_analyzer_finds_call_shapes_and_pdas() {
    let mut program = demo_program(&["move_tokens"]);
    program.instructions[0].body = "{ token::transfer(CpiContext::new(a, b), amount)?; }".to_string();
    program.account_structs = vec![AnchorAccountStruct {
        name: "Move".to_string(),
        instruction_args: vec![],
        accounts: vec![AnchorAccount {
            name: "vault".to_string(),
            ty: AccountType::Account { inner: "Vault".to_string() },
            constraints: vec![AccountConstraint::Seeds(vec!["b\"v\"".to_string()])],
        }],
    }];
    let analysis = analyze(&program);
    assert_eq!(analysis.cpi_calls.len(), 1);
    assert_eq!(analysis.cpi_calls[0].target_program, "token_program");
    assert_eq!(analysis.cpi_calls[0].instruction, "transfer");
    assert_eq!(analysis.cpi_calls[0].accounts, vec!["from", "to", "authority"]);
    assert_eq!(analysis.pdas.len(), 1);
    assert_eq!(analysis.pdas[0].account_name, "vault");
    assert_eq!(analysis.pdas[0].program_id, "program_id");
}

#[test]
fn test_full_pipeline_end_to_end() {
    let program = AnchorProgram {
        name: "escrow".to_string(),
        program_id: Some("Escrow111".to_string()),
        instructions: vec![AnchorInstruction {
            name: "deposit".to_string(),
            accounts_struct: "Deposit".to_string(),
            args: vec![uncpi::ir::InstructionArg { name: "amount".to_string(), ty: "u64".to_string() }],
            body: "{ ctx.accounts.vault.key() ; msg!(\"deposit\"); Ok(()) }".to_string(),
        }],
        account_structs: vec![AnchorAccountStruct {
            name: "Deposit".to_string(),
            instruction_args: vec![],
            accounts: vec![
                signer_account("payer"),
                AnchorAccount {
                    name: "vault".to_string(),
                    ty: AccountType::Account { inner: "Vault".to_string() },
                    constraints: vec![
                        AccountConstraint::Mut,
                        AccountConstraint::Seeds(vec!["b\"vault\"".to_string()]),
                        AccountConstraint::Bump(None),
                    ],
                },
            ],
        }],
        state_structs: vec![uncpi::ir::AnchorStateStruct {
            name: "Vault".to_string(),
            fields: vec![
                uncpi::ir::StateField { name: "owner".to_string(), ty: "Pubkey".to_string(), max_len: None },
                uncpi::ir::StateField { name: "amount".to_string(), ty: "u64".to_string(), max_len: None },
            ],
            has_init_space: false,
            is_zero_copy: false,
        }],
        errors: vec![uncpi::ir::AnchorError {
            name: "Empty".to_string(),
            code: None,
            msg: "nothing to take".to_string(),
        }],
    };
    let analysis = analyze(&program);
    assert_eq!(analysis.pdas.len(), 1);
    let out = transform(&program, &analysis, &demo_config()).expect("transforms");
    assert_eq!(out.name, "escrow");
    assert_eq!(out.program_id, Some("Escrow111".to_string()));
    let inst = &out.instructions[0];
    assert_eq!(inst.name, "deposit");
    assert_eq!(inst.discriminator.len(), 8);
    assert_eq!(inst.accounts.len(), 2);
    assert!(inst.accounts[0].is_signer);
    assert!(!inst.accounts[0].is_writable);
    assert!(inst.accounts[1].is_writable);
    assert!(inst.accounts[1].is_pda);
    assert_eq!(inst.accounts[1].pda_seeds, Some(vec!["b\"vault\"".to_string()]));
    assert_eq!(inst.accounts[1].index, 1);
    assert_eq!(inst.args[0].name, "amount");
    // Signer check, then writable check, then the PDA check.
    assert!(matches!(inst.validations[0], Validation::IsSigner { account_idx: 0 }));
    assert!(matches!(inst.validations[1], Validation::IsWritable { account_idx: 1 }));
    assert!(matches!(inst.validations[2], Validation::PdaCheck { account_idx: 1, .. }));
    assert!(inst.body.contains("vault.key()"));
    assert!(!inst.body.contains("ctx.accounts"));
    // Record layout: header, then the key, then the balance.
    let state = &out.state_structs[0];
    assert_eq!(state.size, 8 + 32 + 8);
    assert_eq!(state.fields[0].offset, 8);
    assert_eq!(state.fields[1].offset, 40);
    // Default error code.
    assert_eq!(out.errors[0].code, 6000);
    assert_eq!(out.errors[0].msg, "nothing to take");
}

#[test]
fn test_validation_order_is_kind_major() {
    // A PDA-constrained first account and a signer second account: the
    // signer check still comes before the PDA check, because the list is
    // ordered by kind across all accounts, not per account.
    let pda = AnchorAccount {
        name: "vault".to_string(),
        ty: AccountType::Account { inner: "Vault".to_string() },
        constraints: vec![
            AccountConstraint::Mut,
            AccountConstraint::Seeds(vec!["b\"vault\"".to_string()]),
        ],
    };
    let group = AnchorAccountStruct {
        name: "Open".to_string(),
        instruction_args: vec![],
        accounts: vec![pda, signer_account("payer")],
    };
    let validations = generate_validations(&group);
    assert_eq!(validations.len(), 3);
    assert!(matches!(validations[0], Validation::IsSigner { account_idx: 1 }));
    assert!(matches!(validations[1], Validation::IsWritable { account_idx: 0 }));
    assert!(matches!(validations[2], Validation::PdaCheck { account_idx: 0, .. }));
}

#[test]
fn test_record_size_invariant_without_fact() {
    // The produced record's declared size is the header plus the field sum
    // even when the fact set knows nothing about the record.
    let state = uncpi::ir::AnchorStateStruct {
        name: "Orphan".to_string(),
        fields: vec![
            uncpi::ir::StateField { name: "a".to_string(), ty: "u64".to_string(), max_len: None },
            uncpi::ir::StateField { name: "b".to_string(), ty: "Pubkey".to_string(), max_len: None },
        ],
        has_init_space: false,
        is_zero_copy: false,
    };
    let empty_analysis = uncpi::ir::ProgramAnalysis {
        pdas: vec![],
        cpi_calls: vec![],
        account_sizes: vec![],
    };
    let out = uncpi::transformer::transform_state(&state, &empty_analysis);
    assert_eq!(out.size, 8 + 8 + 32);
}

#[test]
fn test_deserializer_matches_mutation() {
    // Fields only read: the read-only deserializer.
    let read_only = transform_state_access_final("let x = pool.paused ; do_something(x) ;");
    assert!(read_only.contains("let pool_state = StablePool::from_account_info(pool)?;"));
    assert!(!read_only.contains("from_account_info_mut"));
    // A field assigned: the mutable deserializer with a mut binding.
    let written = transform_state_access_final("pool.paused = true ; emit_nothing() ;");
    assert!(written.contains("let mut pool_state = StablePool::from_account_info_mut(pool)?;"));
}

#[test]
fn test_strip_removes_nested_diagnostics() {
    // Stripping runs to a fixed point with full nesting, so even a call
    // whose arguments nest parentheses two deep is gone.
    let mut cfg = demo_config();
    cfg.no_logs = true;
    let out = transform_body(
        "{ msg!(\"v = {}\", f(g(1))); let k = 1 ; Ok(()) }",
        &one_account(),
        &cfg,
    );
    assert!(!out.contains("msg!"));
    assert!(out.contains("let k = 1"));
}

#[test]
fn test_cpi_fact_order_within_one_body() {
    let mut program = demo_program(&["sweep"]);
    program.instructions[0].body =
        "{ token::burn(CpiContext::new(a, b), x)?; token::transfer(CpiContext::new(c, d), y)?; }"
            .to_string();
    let analysis = analyze(&program);
    // Fixed detection order within a body: transfer before burn.
    assert_eq!(analysis.cpi_calls.len(), 2);
    assert_eq!(analysis.cpi_calls[0].instruction, "transfer");
    assert_eq!(analysis.cpi_calls[1].instruction, "burn");
    assert_eq!(analysis.cpi_calls[1].accounts, vec!["mint", "from", "authority"]);
}

