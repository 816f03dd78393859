use uncpi::idl::{
    calculate_discriminator, generate_idl, rust_type_to_idl_type, to_camel_case, to_snake_case,
    verify_idl, IdlSummary, IdlType,
};
use uncpi::ir::{PinocchioConfig, PinocchioError, PinocchioProgram};
use sha2::Digest;

#[test]
fn test_to_snake_case() {
    assert_eq!(to_snake_case("CreatePool"), "create_pool");
    assert_eq!(to_snake_case("addLiquidity"), "add_liquidity");
    assert_eq!(to_snake_case("IDL"), "i_d_l");
}

#[test]
fn test_to_camel_case() {
    assert_eq!(to_camel_case("create_pool"), "createPool");
    assert_eq!(to_camel_case("add_liquidity"), "addLiquidity");
    assert_eq!(to_camel_case("pool"), "pool");
}

#[test]
fn test_rust_type_to_idl_type() {
    match rust_type_to_idl_type("u64") {
        IdlType::Simple(s) => assert_eq!(s, "u64"),
        _ => panic!("Expected simple type"),
    }

    match rust_type_to_idl_type("bool") {
        IdlType::Simple(s) => assert_eq!(s, "bool"),
        _ => panic!("Expected simple type"),
    }

    match rust_type_to_idl_type("[u8; 32]") {
        IdlType::Simple(s) => assert_eq!(s, "publicKey"),
        _ => panic!("Expected publicKey for [u8; 32]"),
    }

    match rust_type_to_idl_type("Option<u64>") {
        IdlType::Option { option } => match *option {
            IdlType::Simple(s) => assert_eq!(s, "u64"),
            _ => panic!("Expected simple u64 inside Option"),
        },
        _ => panic!("Expected Option type"),
    }
}

#[test]
fn test_defined_and_array_types() {
    match rust_type_to_idl_type("PoolConfig") {
        IdlType::Defined { defined } => assert_eq!(defined, "PoolConfig"),
        _ => panic!("Expected defined type"),
    }
    match rust_type_to_idl_type("[u8; 16]") {
        IdlType::Array { array } => {
            assert_eq!(array.1, 16);
            match *array.0 {
                IdlType::Simple(ref s) => assert_eq!(s, "u8"),
                _ => panic!("Expected u8 elements"),
            }
        },
        _ => panic!("Expected array type"),
    }
    match rust_type_to_idl_type("Vec<u16>") {
        IdlType::Vec { vec } => match *vec {
            IdlType::Simple(ref s) => assert_eq!(s, "u16"),
            _ => panic!("Expected u16 elements"),
        },
        _ => panic!("Expected sequence type"),
    }
}

#[test]
fn test_discriminator_calculation() {
    let disc = calculate_discriminator("global", "create_pool");
    assert_eq!(disc.len(), 8);
    assert_ne!(disc, vec![0u8; 8]);

    let disc2 = calculate_discriminator("global", "add_liquidity");
    assert_ne!(disc, disc2);
}

#[test]
fn test_discriminator_wire_format() {
    // The discriminator must be the first eight digest bytes of the exact
    // ASCII preimage.
    let disc = calculate_discriminator("global", "initialize");
    let digest = sha2::Sha256::digest(b"global:initialize");
    assert_eq!(disc, digest[..8].to_vec());

    let disc2 = calculate_discriminator("global", "deposit");
    let digest2 = sha2::Sha256::digest(b"global:deposit");
    assert_eq!(disc2, digest2[..8].to_vec());
    assert_ne!(disc, disc2);
}

fn tiny_program() -> PinocchioProgram {
    PinocchioProgram {
        name: "DemoSwap".to_string(),
        program_id: None,
        config: PinocchioConfig { no_alloc: false, lazy_entrypoint: false, anchor_compat: true },
        instructions: vec![],
        state_structs: vec![],
        errors: vec![
            PinocchioError { name: "BadInput".to_string(), code: 7, msg: "bad".to_string() },
            PinocchioError { name: "TooLate".to_string(), code: 8, msg: "late".to_string() },
        ],
    }
}

#[test]
fn test_generate_idl_numbers_errors_from_6000() {
    let idl = generate_idl(&tiny_program(), Some("addr111"));
    assert_eq!(idl.name, "demo_swap");
    assert_eq!(idl.version, "0.1.0");
    assert_eq!(idl.errors.len(), 2);
    assert_eq!(idl.errors[0].code, 6000);
    assert_eq!(idl.errors[1].code, 6001);
    assert_eq!(idl.errors[0].name, "BadInput");
    assert!(idl.metadata.is_some());
}

#[test]
fn test_generate_idl_carries_roles_and_types() {
    let mut program = tiny_program();
    program.instructions = vec![uncpi::ir::PinocchioInstruction {
        name: "set_rate".to_string(),
        discriminator: vec![1, 2, 3, 4, 5, 6, 7, 8],
        accounts: vec![uncpi::ir::PinocchioAccount {
            name: "rate_pool".to_string(),
            index: 0,
            is_signer: true,
            is_writable: true,
            is_pda: false,
            pda_seeds: None,
            is_init: false,
            token_mint: None,
            token_authority: None,
            init_payer: None,
        }],
        args: vec![uncpi::ir::InstructionArg { name: "new_rate".to_string(), ty: "u64".to_string() }],
        validations: vec![],
        body: String::new(),
    }];
    let idl = generate_idl(&program, None);
    let inst = &idl.instructions[0];
    assert_eq!(inst.name, "setRate");
    assert_eq!(inst.accounts[0].name, "ratePool");
    assert!(inst.accounts[0].is_mut);
    assert!(inst.accounts[0].is_signer);
    assert_eq!(inst.args[0].name, "newRate");
    match &inst.args[0].ty {
        IdlType::Simple(s) => assert_eq!(s, "u64"),
        _ => panic!("Expected simple type"),
    }
}

#[test]
fn test_verify_idl_counts() {
    let idl = generate_idl(&tiny_program(), None);
    let matching = IdlSummary { instructions: Some(vec![]), accounts: Some(vec![]), errors: Some(2) };
    let v = verify_idl(&idl, &matching);
    assert!(v.is_compatible);
    assert_eq!(v.total_errors, 2);
    assert_eq!(v.matching_errors, 2);
    assert_eq!(v.issues.len(), 0);

    let mismatching = IdlSummary {
        instructions: Some(vec![("setup".to_string(), 1, 0)]),
        accounts: None,
        errors: Some(3),
    };
    let v2 = verify_idl(&idl, &mismatching);
    assert!(!v2.is_compatible);
    assert_eq!(v2.total_instructions, 1);
    assert_eq!(v2.matching_instructions, 0);
    assert_eq!(v2.matching_errors, 0);
    assert_eq!(v2.issues.len(), 2);
}
