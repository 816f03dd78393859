//! Zero-copy record handling: whether a record is loaded through raw-cast
//! accessors, and the safety text emitted next to those accessors.

use vstd::prelude::*;
use crate::ir::AnchorStateStruct;
use crate::text::{append_str, chars_of, string_of};

verus! {

/// A record uses zero-copy loading exactly when it is marked for it.
pub fn should_use_zero_copy(state: &AnchorStateStruct) -> (r: bool)
    ensures
        r == state.is_zero_copy,
{
    state.is_zero_copy
}

/// Reserved size estimation for zero-copy records; not yet computed, so
/// always zero.
pub fn estimate_state_size(_state: &AnchorStateStruct) -> (r: usize)
    ensures
        r == 0,
{
    0
}

/// The safety text placed above raw-cast accessors: the caller's duties,
/// with the packed-layout warnings when the record is packed.
pub open spec fn spec_safety_doc(is_packed: bool) -> Seq<char> {
    let head = "/// # Safety\n"@
        + "/// This function performs unsafe pointer casts. The caller must ensure:\n"@
        + "/// - Account data is properly initialized\n"@
        + "/// - Account data size matches struct size\n"@;
    if is_packed {
        head + "/// - Struct uses #[repr(C, packed)] for correct layout\n"@
            + "/// - Be aware of alignment issues with packed structs\n"@
    } else {
        head + "/// - Account data alignment is correct\n"@
    }
}

/// Generates the safety text for raw-cast accessors.
pub fn generate_safety_doc(is_packed: bool) -> (r: String)
    ensures
        r@ == spec_safety_doc(is_packed),
{
    let mut out: Vec<char> = Vec::new();
    append_str(&mut out, "/// # Safety\n");
    append_str(&mut out, "/// This function performs unsafe pointer casts. The caller must ensure:\n");
    append_str(&mut out, "/// - Account data is properly initialized\n");
    append_str(&mut out, "/// - Account data size matches struct size\n");
    if is_packed {
        append_str(&mut out, "/// - Struct uses #[repr(C, packed)] for correct layout\n");
        append_str(&mut out, "/// - Be aware of alignment issues with packed structs\n");
    } else {
        append_str(&mut out, "/// - Account data alignment is correct\n");
    }
    string_of(&out)
}

/// Reserved rewrite for loader-style state access; the body passes through
/// unchanged.
pub fn transform_account_loader_usage(body: &str, _loader_accounts: &Vec<(String, String)>) -> (r:
    String)
    ensures
        r@ == body@,
{
    let v = chars_of(body);
    string_of(&v)
}

} // verus!
