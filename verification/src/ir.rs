//! The shared data model: source-form entities, analysis facts, and
//! target-form entities.
//!
//! Source-form entities are built once by an external front end and are
//! immutable through analysis; the fact set is computed in full before any
//! transformation begins; target-form entities are built exactly once per
//! instruction or record and handed to an external emitter.

use vstd::prelude::*;

verus! {

// ------------------------------------------------------------------
// Source-form model
// ------------------------------------------------------------------

/// A whole source-form program.
#[derive(Debug, PartialEq)]
pub struct AnchorProgram {
    pub name: String,
    pub program_id: Option<String>,
    pub instructions: Vec<AnchorInstruction>,
    pub account_structs: Vec<AnchorAccountStruct>,
    pub state_structs: Vec<AnchorStateStruct>,
    pub errors: Vec<AnchorError>,
}

/// One instruction: its account-group name, typed arguments, and raw body.
#[derive(Debug, Clone, PartialEq)]
pub struct AnchorInstruction {
    pub name: String,
    pub accounts_struct: String,
    pub args: Vec<InstructionArg>,
    pub body: String,
}

/// A typed instruction argument.
#[derive(Debug, Clone, PartialEq)]
pub struct InstructionArg {
    pub name: String,
    pub ty: String,
}

/// A named group of account declarations used by an instruction.
#[derive(Debug, PartialEq)]
pub struct AnchorAccountStruct {
    pub name: String,
    pub instruction_args: Vec<InstructionArg>,
    pub accounts: Vec<AnchorAccount>,
}

/// One declared account: name, kind, and constraints.
#[derive(Debug, PartialEq)]
pub struct AnchorAccount {
    pub name: String,
    pub ty: AccountType,
    pub constraints: Vec<AccountConstraint>,
}

/// The closed set of account kinds.
#[derive(Debug, PartialEq)]
pub enum AccountType {
    Account { inner: String },
    Signer,
    SystemAccount,
    UncheckedAccount,
    Program { inner: String },
    Sysvar { inner: String },
    TokenAccount,
    Mint,
    Box { inner: std::boxed::Box<AccountType> },
}

/// The closed set of account constraints.
#[derive(Debug, Clone, PartialEq)]
pub enum AccountConstraint {
    Mut,
    Init { payer: String, space: String },
    InitIfNeeded { payer: String, space: String },
    Seeds(Vec<String>),
    Bump(Option<String>),
    TokenMint(String),
    TokenAuthority(String),
    MintDecimals(u8),
    MintAuthority(String),
    Constraint { expr: String, error: Option<String> },
    HasOne { field: String, error: Option<String> },
    Address(String),
    Close(String),
}

/// A state record: name and ordered field list.
#[derive(Debug, Clone, PartialEq)]
pub struct AnchorStateStruct {
    pub name: String,
    pub fields: Vec<StateField>,
    pub has_init_space: bool,
    pub is_zero_copy: bool,
}

/// One field of a state record: name, type descriptor, optional explicit
/// bound for variable-length content.
#[derive(Debug, Clone, PartialEq)]
pub struct StateField {
    pub name: String,
    pub ty: String,
    pub max_len: Option<usize>,
}

/// A declared error: name, optional code, message.
#[derive(Debug, Clone, PartialEq)]
pub struct AnchorError {
    pub name: String,
    pub code: Option<u32>,
    pub msg: String,
}

/// A bounded-sequence field of a state record, to be lowered to a
/// fixed-capacity backing array plus a separate length counter.
#[derive(Debug, Clone, PartialEq)]
pub struct VecField {
    pub name: String,
    pub element_type: String,
    pub max_len: Option<usize>,
    pub resolved_max_len: usize,
    pub is_mutable: bool,
}

// ------------------------------------------------------------------
// Analysis facts
// ------------------------------------------------------------------

/// The immutable fact set produced by the relationship analyzer.
#[derive(Debug, Clone, PartialEq)]
pub struct ProgramAnalysis {
    pub pdas: Vec<PdaInfo>,
    pub cpi_calls: Vec<CpiCall>,
    pub account_sizes: Vec<AccountSize>,
}

/// A program-derived-address declaration: account name, seed expressions, and
/// where its bump byte comes from, if anywhere.
#[derive(Debug, Clone, PartialEq)]
pub struct PdaInfo {
    pub account_name: String,
    pub seeds: Vec<String>,
    pub bump_source: Option<String>,
    pub program_id: String,
}

/// A recognized cross-program call shape in an instruction body.
#[derive(Debug, Clone, PartialEq)]
pub struct CpiCall {
    pub target_program: String,
    pub instruction: String,
    pub accounts: Vec<String>,
}

/// The computed byte size of a state record and of each of its fields.
#[derive(Debug, Clone, PartialEq)]
pub struct AccountSize {
    pub struct_name: String,
    pub size: usize,
    pub fields: Vec<(String, usize)>,
}

// ------------------------------------------------------------------
// Target-form model
// ------------------------------------------------------------------

/// A whole target-form program.
#[derive(Debug, Clone, PartialEq)]
pub struct PinocchioProgram {
    pub name: String,
    pub program_id: Option<String>,
    pub config: PinocchioConfig,
    pub instructions: Vec<PinocchioInstruction>,
    pub state_structs: Vec<PinocchioState>,
    pub errors: Vec<PinocchioError>,
}

/// The configuration recorded on the target-form program.
#[derive(Debug, Clone, PartialEq)]
pub struct PinocchioConfig {
    pub no_alloc: bool,
    pub lazy_entrypoint: bool,
    pub anchor_compat: bool,
}

/// One target-form instruction with its discriminator, accounts, ordered
/// validations, and rewritten body.
#[derive(Debug, Clone, PartialEq)]
pub struct PinocchioInstruction {
    pub name: String,
    pub discriminator: Vec<u8>,
    pub accounts: Vec<PinocchioAccount>,
    pub args: Vec<InstructionArg>,
    pub validations: Vec<Validation>,
    pub body: String,
}

/// Per-account metadata in the target form; the index equals the account's
/// declaration order and is stable across the pipeline.
#[derive(Debug, Clone, PartialEq)]
pub struct PinocchioAccount {
    pub name: String,
    pub index: usize,
    pub is_signer: bool,
    pub is_writable: bool,
    pub is_pda: bool,
    pub pda_seeds: Option<Vec<String>>,
    pub is_init: bool,
    pub token_mint: Option<String>,
    pub token_authority: Option<String>,
    pub init_payer: Option<String>,
}

/// One generated validation step.
#[derive(Debug, Clone, PartialEq)]
pub enum Validation {
    IsSigner { account_idx: usize },
    IsWritable { account_idx: usize },
    PdaCheck { account_idx: usize, seeds: Vec<String>, bump: Option<String> },
    OwnerCheck { account_idx: usize, owner: String },
    KeyEquals { account_idx: usize, expected: String },
    Custom { code: String },
}

/// A laid-out state record: total size and ordered fields with offsets.
#[derive(Debug, Clone, PartialEq)]
pub struct PinocchioState {
    pub name: String,
    pub size: usize,
    pub fields: Vec<PinocchioField>,
}

/// One laid-out field: size and byte offset within the record.
#[derive(Debug, Clone, PartialEq)]
pub struct PinocchioField {
    pub name: String,
    pub ty: String,
    pub size: usize,
    pub offset: usize,
    pub max_len: Option<usize>,
}

/// A target-form error with its resolved code.
#[derive(Debug, Clone, PartialEq)]
pub struct PinocchioError {
    pub name: String,
    pub code: u32,
    pub msg: String,
}

// ------------------------------------------------------------------
// Extracted source extras
// ------------------------------------------------------------------

/// Constants and helper functions lifted from the source alongside the model.
#[derive(Debug, Clone, PartialEq)]
pub struct SourceExtras {
    pub constants: Vec<ConstantDef>,
    pub helper_functions: Vec<HelperFunction>,
}

/// A named constant from the source.
#[derive(Debug, Clone, PartialEq)]
pub struct ConstantDef {
    pub name: String,
    pub ty: String,
    pub value: String,
}

/// A non-instruction helper function from the source.
#[derive(Debug, Clone, PartialEq)]
pub struct HelperFunction {
    pub name: String,
    pub signature: String,
    pub body: String,
}

impl SourceExtras {
    /// An empty extras set.
    pub fn new_empty() -> (r: SourceExtras)
        ensures
            r.constants@.len() == 0,
            r.helper_functions@.len() == 0,
    {
        SourceExtras { constants: Vec::new(), helper_functions: Vec::new() }
    }
}

} // verus!
