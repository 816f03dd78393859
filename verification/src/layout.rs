//! The layout engine: byte sizes for field type descriptors, capacities and
//! counter widths for bounded-sequence fields, and offset-addressed record
//! layout.
//!
//! A record's bytes start with a fixed 8-byte header; field offsets
//! accumulate monotonically from there.  An optional value costs one
//! discriminant byte plus its inner size.  A bounded sequence costs a backing
//! array of `capacity * element_size` plus a separate length counter whose
//! width is chosen from the capacity.

use vstd::prelude::*;
use crate::text::{
    append_str, chars_of, contains_in, contains_seq, despace, despace_in, eq_str, lower_in,
    lower_seq, slice_of, starts_with_in, starts_with_seq, string_of,
};
use crate::ir::{StateField, VecField};

verus! {

/// Byte size of the record header that precedes every state record's fields.
pub const HEADER_SIZE: usize = 8;

/// `x`, clamped to the machine word range.
pub open spec fn sat_usize(x: nat) -> nat {
    if x > usize::MAX {
        usize::MAX as nat
    } else {
        x
    }
}

/// Byte size of a space-free field type descriptor, letter case kept for
/// the element lookup.  An optional value is one discriminant byte plus its
/// inner size.  A bounded sequence contributes a backing array of capacity
/// times element size plus its separate length counter; the capacity comes
/// from the explicit bound when one is given, else from the per-element-type
/// default table.  Unknown types get a conservative fixed estimate.
pub open spec fn spec_desc_size(d: Seq<char>, bound: Option<usize>) -> nat
    decreases d.len(),
{
    let n = lower_seq(d);
    if starts_with_seq(n, "option<"@) && n.len() >= 8 {
        1 + spec_desc_size(d.subrange(7, d.len() - 1), bound)
    } else if starts_with_seq(n, "vec<"@) && n.len() >= 5 {
        let elem = d.subrange(4, d.len() - 1);
        let cap = match bound {
            Some(l) => l as nat,
            None => spec_default_capacity(elem),
        };
        let esz = spec_element_size(elem);
        let esz_eff: nat = if esz == 0 {
            32
        } else {
            esz
        };
        cap * esz_eff + spec_counter_width(cap)
    } else if n == "string"@ {
        4
    } else if n == "bool"@ || n == "u8"@ || n == "i8"@ {
        1
    } else if n == "u16"@ || n == "i16"@ {
        2
    } else if n == "u32"@ || n == "i32"@ || n == "f32"@ {
        4
    } else if n == "u64"@ || n == "i64"@ || n == "f64"@ {
        8
    } else if n == "u128"@ || n == "i128"@ {
        16
    } else if n == "pubkey"@ || n == "publickey"@ {
        32
    } else {
        32
    }
}

/// Byte size of a field type descriptor without an explicit bound: spaces
/// are ignored; a bounded sequence takes its default capacity.
pub open spec fn spec_estimate_field_size(ty: Seq<char>) -> nat {
    spec_desc_size(despace(ty), None)
}

/// Every descriptor size is at least one byte.
pub proof fn lemma_desc_size_pos(d: Seq<char>, bound: Option<usize>)
    ensures
        spec_desc_size(d, bound) >= 1,
    decreases d.len(),
{
    let n = lower_seq(d);
    if starts_with_seq(n, "option<"@) && n.len() >= 8 {
        lemma_desc_size_pos(d.subrange(7, d.len() - 1), bound);
    }
}

fn desc_size_x(d: &Vec<char>, bound: Option<usize>) -> (r: usize)
    ensures
        r as nat == sat_usize(spec_desc_size(d@, bound)),
    decreases d@.len(),
{
    let n = lower_in(d);
    let opt = chars_of("option<");
    if starts_with_in(&n, &opt) && n.len() >= 8 {
        assert(d@.len() == n@.len());
        let inner = slice_of(d, 7, d.len() - 1);
        let s = desc_size_x(&inner, bound);
        if s == usize::MAX {
            usize::MAX
        } else {
            s + 1
        }
    } else {
        let vecp = chars_of("vec<");
        if starts_with_in(&n, &vecp) && n.len() >= 5 {
            assert(d@.len() == n@.len());
            let elem = slice_of(d, 4, d.len() - 1);
            let cap = match bound {
                Some(l) => l,
                None => default_capacity_x(&elem),
            };
            let esz = element_size_x(&elem);
            let esz_eff: usize = if esz == 0 {
                32
            } else {
                esz
            };
            let counter: usize = if cap <= 255 {
                1
            } else if cap <= 65535 {
                2
            } else {
                8
            };
            match cap.checked_mul(esz_eff) {
                Some(b) => {
                    match b.checked_add(counter) {
                        Some(t) => t,
                        None => usize::MAX,
                    }
                },
                None => usize::MAX,
            }
        } else if eq_str(&n, "string") {
            4
        } else if eq_str(&n, "bool") || eq_str(&n, "u8") || eq_str(&n, "i8") {
            1
        } else if eq_str(&n, "u16") || eq_str(&n, "i16") {
            2
        } else if eq_str(&n, "u32") || eq_str(&n, "i32") || eq_str(&n, "f32") {
            4
        } else if eq_str(&n, "u64") || eq_str(&n, "i64") || eq_str(&n, "f64") {
            8
        } else if eq_str(&n, "u128") || eq_str(&n, "i128") {
            16
        } else {
            32
        }
    }
}

/// Byte size of one field type descriptor, with bounded sequences at their
/// default capacity.  The result is exact; a size beyond the machine word
/// range is clamped to it.
pub fn estimate_field_size(ty: &str) -> (r: usize)
    ensures
        r as nat == sat_usize(spec_estimate_field_size(ty@)),
{
    let v = chars_of(ty);
    let d = despace_in(&v);
    desc_size_x(&d, None)
}

/// Default capacity for a bounded sequence, by element type: 32-byte keys
/// default to 32 elements, small integers to larger counts, and anything
/// unrecognized to a conservative 32.
pub open spec fn spec_default_capacity(t: Seq<char>) -> nat {
    if contains_seq(t, "Pubkey"@) {
        32
    } else if contains_seq(t, "u64"@) {
        100
    } else if contains_seq(t, "u32"@) {
        100
    } else if contains_seq(t, "u16"@) {
        256
    } else if contains_seq(t, "u8"@) {
        256
    } else if contains_seq(t, "i64"@) {
        100
    } else if contains_seq(t, "String"@) {
        10
    } else if contains_seq(t, "AccountInfo"@) {
        16
    } else {
        32
    }
}

fn default_capacity_x(t: &Vec<char>) -> (r: usize)
    ensures
        r as nat == spec_default_capacity(t@),
{
    let p0 = chars_of("Pubkey");
    let p1 = chars_of("u64");
    let p2 = chars_of("u32");
    let p3 = chars_of("u16");
    let p4 = chars_of("u8");
    let p5 = chars_of("i64");
    let p6 = chars_of("String");
    let p7 = chars_of("AccountInfo");
    if contains_in(t, &p0) {
        32
    } else if contains_in(t, &p1) {
        100
    } else if contains_in(t, &p2) {
        100
    } else if contains_in(t, &p3) {
        256
    } else if contains_in(t, &p4) {
        256
    } else if contains_in(t, &p5) {
        100
    } else if contains_in(t, &p6) {
        10
    } else if contains_in(t, &p7) {
        16
    } else {
        32
    }
}

/// Byte size of one element of a bounded sequence, by exact element type
/// name; zero for a type whose size is not known here.
pub open spec fn spec_element_size(t: Seq<char>) -> nat {
    if t == "Pubkey"@ {
        32
    } else if t == "u64"@ {
        8
    } else if t == "u32"@ {
        4
    } else if t == "u16"@ {
        2
    } else if t == "u8"@ {
        1
    } else if t == "i64"@ {
        8
    } else if t == "i32"@ {
        4
    } else if t == "i16"@ {
        2
    } else if t == "i8"@ {
        1
    } else if t == "bool"@ {
        1
    } else {
        0
    }
}

fn element_size_x(t: &Vec<char>) -> (r: usize)
    ensures
        r as nat == spec_element_size(t@),
{
    if eq_str(t, "Pubkey") {
        32
    } else if eq_str(t, "u64") {
        8
    } else if eq_str(t, "u32") {
        4
    } else if eq_str(t, "u16") {
        2
    } else if eq_str(t, "u8") {
        1
    } else if eq_str(t, "i64") {
        8
    } else if eq_str(t, "i32") {
        4
    } else if eq_str(t, "i16") {
        2
    } else if eq_str(t, "i8") {
        1
    } else if eq_str(t, "bool") {
        1
    } else {
        0
    }
}

/// Width in bytes of the separate length counter for a bounded sequence of
/// the given capacity: one byte up to 255 elements, two up to 65535, else a
/// native word.
pub open spec fn spec_counter_width(cap: nat) -> nat {
    if cap <= 255 {
        1
    } else if cap <= 65535 {
        2
    } else {
        8
    }
}

impl VecField {
    /// The resolved capacity: the explicit bound when one was given, else the
    /// per-element-type default.
    pub open spec fn spec_max_len(&self) -> nat {
        match self.max_len {
            Some(l) => l as nat,
            None => spec_default_capacity(self.element_type@),
        }
    }

    /// Resolved capacity of this bounded sequence.
    pub fn get_max_len(&self) -> (r: usize)
        ensures
            r as nat == self.spec_max_len(),
    {
        if let Some(l) = self.max_len {
            return l;
        }
        let t = chars_of(self.element_type.as_str());
        default_capacity_x(&t)
    }

    /// Name of the separate length counter field for this sequence.
    pub fn length_field_name(&self) -> (r: String)
        ensures
            r@ == self.name@ + "_len"@,
    {
        let mut v = chars_of(self.name.as_str());
        append_str(&mut v, "_len");
        string_of(&v)
    }

    /// Byte size of one element.
    pub fn element_size(&self) -> (r: usize)
        ensures
            r as nat == spec_element_size(self.element_type@),
    {
        let t = chars_of(self.element_type.as_str());
        element_size_x(&t)
    }

    /// Type name of the length counter, chosen from the resolved capacity.
    pub fn length_type(&self) -> (r: &'static str)
        ensures
            r@ == spec_length_type(self.spec_max_len()),
    {
        let m = self.get_max_len();
        if m <= 255 {
            "u8"
        } else if m <= 65535 {
            "u16"
        } else {
            "usize"
        }
    }
}

/// Type name of the length counter for a given capacity.
pub open spec fn spec_length_type(cap: nat) -> Seq<char> {
    if cap <= 255 {
        "u8"@
    } else if cap <= 65535 {
        "u16"@
    } else {
        "usize"@
    }
}

/// Byte size of one record field within a state record's layout: the
/// descriptor size, with the field's explicit bound (when given) as the
/// capacity of its bounded sequence.
pub open spec fn spec_record_field_size(ty: Seq<char>, bound: Option<usize>) -> nat {
    spec_desc_size(despace(ty), bound)
}

/// A record field never has size zero.
pub proof fn lemma_record_field_size_pos(ty: Seq<char>, bound: Option<usize>)
    ensures
        spec_record_field_size(ty, bound) >= 1,
{
    lemma_desc_size_pos(despace(ty), bound);
}

/// Byte size of one record field, from its descriptor and optional bound.
/// Exact, clamped to the machine word range.
pub fn record_field_size(ty: &str, max_len: Option<usize>) -> (r: usize)
    ensures
        r as nat == sat_usize(spec_record_field_size(ty@, max_len)),
{
    let v = chars_of(ty);
    let d = despace_in(&v);
    desc_size_x(&d, max_len)
}

/// The sizes of a record's fields, in declaration order.
pub open spec fn spec_field_sizes(fields: Seq<StateField>) -> Seq<nat> {
    fields.map_values(|f: StateField| spec_record_field_size(f.ty@, f.max_len))
}

/// Sum of a sequence of sizes.
pub open spec fn sum_seq(s: Seq<nat>) -> nat
    decreases s.len(),
{
    if s.len() == 0 {
        0
    } else {
        s[0] + sum_seq(s.skip(1))
    }
}

/// Total declared size of a record: the 8-byte header plus the sum of its
/// field sizes.
pub open spec fn spec_record_size(fields: Seq<StateField>) -> nat {
    8 + sum_seq(spec_field_sizes(fields))
}

/// Offset of field `i` of a record: the header plus every earlier field.
pub open spec fn spec_field_offset(fields: Seq<StateField>, i: int) -> nat {
    8 + sum_seq(spec_field_sizes(fields).take(i))
}

/// Sum over a prefix grows by exactly the next element.
pub proof fn lemma_sum_take_step(s: Seq<nat>, i: int)
    requires
        0 <= i < s.len(),
    ensures
        sum_seq(s.take(i + 1)) == sum_seq(s.take(i)) + s[i],
    decreases i,
{
    if i == 0 {
        assert(s.take(1).skip(1) =~= Seq::<nat>::empty());
        assert(s.take(1)[0] == s[0]);
        assert(s.take(0) =~= Seq::<nat>::empty());
    } else {
        lemma_sum_take_step(s.skip(1), i - 1);
        assert(s.take(i + 1)[0] == s[0]);
        assert(s.take(i)[0] == s[0]);
        assert(s.take(i + 1).skip(1) =~= s.skip(1).take(i));
        assert(s.take(i).skip(1) =~= s.skip(1).take(i - 1));
        assert(s.skip(1)[i - 1] == s[i]);
    }
}

/// Layout monotonicity: for every record, field offsets start right after
/// the 8-byte header, are strictly increasing, and the declared total size
/// equals the header plus the sum of the field sizes.
pub proof fn lemma_layout_monotonic(fields: Seq<StateField>)
    ensures
        fields.len() > 0 ==> spec_field_offset(fields, 0) == 8,
        forall|i: int|
            0 <= i < fields.len() - 1 ==> spec_field_offset(fields, i + 1) > #[trigger] spec_field_offset(
                fields,
                i,
            ),
        spec_record_size(fields) == 8 + sum_seq(spec_field_sizes(fields)),
{
    let sizes = spec_field_sizes(fields);
    assert(sizes.take(0) =~= Seq::<nat>::empty());
    assert forall|i: int| 0 <= i < fields.len() - 1 implies spec_field_offset(fields, i + 1)
        > #[trigger] spec_field_offset(fields, i) by {
        lemma_sum_take_step(sizes, i);
        assert(sizes[i] == spec_record_field_size(fields[i].ty@, fields[i].max_len));
        lemma_record_field_size_pos(fields[i].ty@, fields[i].max_len);
    }
}

} // verus!
