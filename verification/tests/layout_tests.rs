use uncpi::ir::{AnchorProgram, AnchorStateStruct, StateField, VecField};
use uncpi::layout::{estimate_field_size, record_field_size};
use uncpi::analyzer::analyze;

fn field(name: &str, ty: &str) -> StateField {
    StateField { name: name.to_string(), ty: ty.to_string(), max_len: None }
}

#[test]
fn test_vec_field_get_max_len() {
    let vec_field = VecField {
        name: "items".to_string(),
        element_type: "Pubkey".to_string(),
        max_len: Some(10),
        resolved_max_len: 0,
        is_mutable: true,
    };

    assert_eq!(vec_field.get_max_len(), 10);
}

#[test]
fn test_vec_field_default_max_len() {
    let vec_field = VecField {
        name: "items".to_string(),
        element_type: "Pubkey".to_string(),
        max_len: None,
        resolved_max_len: 0,
        is_mutable: true,
    };

    assert_eq!(vec_field.get_max_len(), 32);
}

#[test]
fn test_length_field_name() {
    let vec_field = VecField {
        name: "signers".to_string(),
        element_type: "Pubkey".to_string(),
        max_len: Some(10),
        resolved_max_len: 0,
        is_mutable: true,
    };

    assert_eq!(vec_field.length_field_name(), "signers_len");
}

#[test]
fn test_element_size() {
    let vec_field = VecField {
        name: "items".to_string(),
        element_type: "u64".to_string(),
        max_len: None,
        resolved_max_len: 0,
        is_mutable: true,
    };

    assert_eq!(vec_field.element_size(), 8);
}

#[test]
fn test_primitive_field_sizes() {
    assert_eq!(estimate_field_size("u8"), 1);
    assert_eq!(estimate_field_size("u32"), 4);
    assert_eq!(estimate_field_size("u64"), 8);
    assert_eq!(estimate_field_size("bool"), 1);
    assert_eq!(estimate_field_size("Pubkey"), 32);
    assert_eq!(estimate_field_size("i128"), 16);
    assert_eq!(estimate_field_size("SomethingElse"), 32);
}

#[test]
fn test_record_size_without_dynamic_fields() {
    // A record with a byte, a word and a 32-byte key: 8 + 1 + 4 + 32 = 45.
    let program = AnchorProgram {
        name: "demo".to_string(),
        program_id: None,
        instructions: vec![],
        account_structs: vec![],
        state_structs: vec![AnchorStateStruct {
            name: "Small".to_string(),
            fields: vec![field("a", "u8"), field("b", "u32"), field("c", "Pubkey")],
            has_init_space: false,
            is_zero_copy: false,
        }],
        errors: vec![],
    };
    let analysis = analyze(&program);
    assert_eq!(analysis.account_sizes.len(), 1);
    assert_eq!(analysis.account_sizes[0].size, 45);
    assert_eq!(analysis.account_sizes[0].struct_name, "Small");
}

#[test]
fn test_optional_key_field_size() {
    // An optional 32-byte key costs one discriminant byte plus the key.
    assert_eq!(estimate_field_size("Option<Pubkey>"), 33);
    assert_eq!(record_field_size("Option<Pubkey>", None), 33);
}

#[test]
fn test_estimator_sizes_sequences_like_the_layout() {
    // The public estimator uses the same capacity-based sequence formula as
    // the record layout: 32 keys of 32 bytes plus a one-byte counter.
    assert_eq!(estimate_field_size("Vec<Pubkey>"), 1025);
    assert_eq!(estimate_field_size("Option<Vec<Pubkey>>"), 1026);
    assert_eq!(estimate_field_size("Vec<u64>"), 100 * 8 + 1);
}

#[test]
fn test_default_bounded_sequence_layout() {
    // A sequence of 32-byte keys without an explicit bound defaults to 32
    // elements: a 1024-byte backing array plus a one-byte length counter.
    let vec_field = VecField {
        name: "keys".to_string(),
        element_type: "Pubkey".to_string(),
        max_len: None,
        resolved_max_len: 0,
        is_mutable: true,
    };
    assert_eq!(vec_field.get_max_len() * vec_field.element_size(), 1024);
    assert_eq!(vec_field.length_type(), "u8");
    assert_eq!(record_field_size("Vec<Pubkey>", None), 1025);
}

#[test]
fn test_counter_widths() {
    let small = VecField {
        name: "a".to_string(),
        element_type: "u8".to_string(),
        max_len: Some(255),
        resolved_max_len: 0,
        is_mutable: true,
    };
    assert_eq!(small.length_type(), "u8");
    let mid = VecField {
        name: "b".to_string(),
        element_type: "u8".to_string(),
        max_len: Some(256),
        resolved_max_len: 0,
        is_mutable: true,
    };
    assert_eq!(mid.length_type(), "u16");
    let large = VecField {
        name: "c".to_string(),
        element_type: "u8".to_string(),
        max_len: Some(70000),
        resolved_max_len: 0,
        is_mutable: true,
    };
    assert_eq!(large.length_type(), "usize");
}
