//! Interface-description support: the description data model, name-case
//! conversions, the mapping from source type names to description type terms,
//! and the content-derived instruction discriminator.

use vstd::prelude::*;
use vstd::string::*;
use crate::text::{
    append_all, append_str, chars_of, ends_with_seq, ends_with_in, eq_str, is_upper, is_upper_x,
    lower_char, lower_char_x, upper_char, upper_char_x, slice_of, starts_with_in, starts_with_seq,
    string_of, str_eq, contains_seq, contains_in,
};
use crate::ir::{InstructionArg, PinocchioError, PinocchioInstruction, PinocchioProgram, PinocchioState};

verus! {

// ------------------------------------------------------------------
// Description data model
// ------------------------------------------------------------------

/// A whole interface description.
#[derive(Debug, PartialEq)]
pub struct Idl {
    pub version: String,
    pub name: String,
    pub instructions: Vec<IdlInstruction>,
    pub accounts: Vec<IdlAccount>,
    pub errors: Vec<IdlError>,
    pub metadata: Option<IdlMetadata>,
}

/// Description metadata: the program address and an optional origin note.
#[derive(Debug, Clone, PartialEq)]
pub struct IdlMetadata {
    pub address: String,
    pub origin: Option<String>,
}

/// One described instruction.
#[derive(Debug, PartialEq)]
pub struct IdlInstruction {
    pub name: String,
    pub docs: Option<Vec<String>>,
    pub accounts: Vec<IdlAccountItem>,
    pub args: Vec<IdlArg>,
    pub discriminator: Option<Vec<u8>>,
}

/// One account entry of a described instruction.
#[derive(Debug, Clone, PartialEq)]
pub struct IdlAccountItem {
    pub name: String,
    pub is_mut: bool,
    pub is_signer: bool,
    pub docs: Option<Vec<String>>,
}

/// One typed argument of a described instruction.
#[derive(Debug, PartialEq)]
pub struct IdlArg {
    pub name: String,
    pub ty: IdlType,
}

/// A description type term.
#[derive(Debug, PartialEq)]
pub enum IdlType {
    Simple(String),
    Array { array: (std::boxed::Box<IdlType>, usize) },
    Option { option: std::boxed::Box<IdlType> },
    Vec { vec: std::boxed::Box<IdlType> },
    Defined { defined: String },
}

/// A described state record.
#[derive(Debug, PartialEq)]
pub struct IdlAccount {
    pub name: String,
    pub ty: IdlAccountType,
}

/// Kind and fields of a described state record.
#[derive(Debug, PartialEq)]
pub struct IdlAccountType {
    pub kind: String,
    pub fields: Vec<IdlField>,
}

/// One described record field.
#[derive(Debug, PartialEq)]
pub struct IdlField {
    pub name: String,
    pub ty: IdlType,
    pub docs: Option<Vec<String>>,
}

/// One described error.
#[derive(Debug, Clone, PartialEq)]
pub struct IdlError {
    pub code: u32,
    pub name: String,
    pub msg: Option<String>,
}

/// The mathematical shape of a description type term.
pub enum IdlTypeView {
    Simple(Seq<char>),
    Arr { inner: std::boxed::Box<IdlTypeView>, n: nat },
    Opt(std::boxed::Box<IdlTypeView>),
    Vect(std::boxed::Box<IdlTypeView>),
    Defined(Seq<char>),
}

/// The shape of a description type term.
pub open spec fn idl_type_view(t: IdlType) -> IdlTypeView
    decreases t,
{
    match t {
        IdlType::Simple(s) => IdlTypeView::Simple(s@),
        IdlType::Array { array } => IdlTypeView::Arr {
            inner: std::boxed::Box::new(idl_type_view(*array.0)),
            n: array.1 as nat,
        },
        IdlType::Option { option } => IdlTypeView::Opt(
            std::boxed::Box::new(idl_type_view(*option)),
        ),
        IdlType::Vec { vec } => IdlTypeView::Vect(std::boxed::Box::new(idl_type_view(*vec))),
        IdlType::Defined { defined } => IdlTypeView::Defined(defined@),
    }
}

// ------------------------------------------------------------------
// Name-case conversions (ASCII letters)
// ------------------------------------------------------------------

/// Characters of `s` from `i` on, rewritten to snake case: an upper-case
/// letter is lowered, with an underscore before it except at the start.
pub open spec fn snake_from(s: Seq<char>, i: int) -> Seq<char>
    decreases s.len() - i,
{
    if i < 0 || i >= s.len() {
        Seq::empty()
    } else {
        let c = s[i];
        let piece: Seq<char> = if is_upper(c) {
            if i > 0 {
                seq!['_', lower_char(c)]
            } else {
                seq![lower_char(c)]
            }
        } else {
            seq![c]
        };
        piece + snake_from(s, i + 1)
    }
}

/// `s` in snake case.
pub open spec fn snake_seq(s: Seq<char>) -> Seq<char> {
    snake_from(s, 0)
}

/// Converts a name to snake case.
pub fn to_snake_case(s: &str) -> (r: String)
    ensures
        r@ == snake_seq(s@),
{
    let v = chars_of(s);
    let n = v.len();
    let mut out: Vec<char> = Vec::new();
    assert(out@ + snake_from(v@, 0) =~= snake_from(v@, 0));
    for i in 0..n
        invariant
            n == v@.len(),
            snake_seq(v@) == out@ + snake_from(v@, i as int),
    {
        let ghost pre = out@;
        if is_upper_x(v[i]) {
            if i > 0 {
                out.push('_');
            }
            out.push(lower_char_x(v[i]));
        } else {
            out.push(v[i]);
        }
        assert(out@ + snake_from(v@, i + 1) =~= pre + snake_from(v@, i as int));
    }
    assert(snake_from(v@, n as int) =~= Seq::<char>::empty());
    assert(out@ + snake_from(v@, n as int) =~= out@);
    string_of(&out)
}

/// Characters of `s` from `i` on, rewritten to camel case: underscores are
/// dropped and capitalize the next letter; the first character is lowered.
pub open spec fn camel_from(s: Seq<char>, i: int, cap_next: bool) -> Seq<char>
    decreases s.len() - i,
{
    if i < 0 || i >= s.len() {
        Seq::empty()
    } else {
        let c = s[i];
        if c == '_' {
            camel_from(s, i + 1, true)
        } else if cap_next {
            seq![upper_char(c)] + camel_from(s, i + 1, false)
        } else if i == 0 {
            seq![lower_char(c)] + camel_from(s, i + 1, false)
        } else {
            seq![c] + camel_from(s, i + 1, false)
        }
    }
}

/// `s` in camel case.
pub open spec fn camel_seq(s: Seq<char>) -> Seq<char> {
    camel_from(s, 0, false)
}

/// Converts a name to camel case.
pub fn to_camel_case(s: &str) -> (r: String)
    ensures
        r@ == camel_seq(s@),
{
    let v = chars_of(s);
    let n = v.len();
    let mut out: Vec<char> = Vec::new();
    let mut cap_next = false;
    assert(out@ + camel_from(v@, 0, false) =~= camel_from(v@, 0, false));
    for i in 0..n
        invariant
            n == v@.len(),
            camel_seq(v@) == out@ + camel_from(v@, i as int, cap_next),
    {
        let ghost pre = out@;
        let ghost pre_cap = cap_next;
        let c = v[i];
        if c == '_' {
            cap_next = true;
        } else if cap_next {
            out.push(upper_char_x(c));
            cap_next = false;
        } else if i == 0 {
            out.push(lower_char_x(c));
        } else {
            out.push(c);
        }
        assert(out@ + camel_from(v@, i + 1, cap_next) =~= pre + camel_from(
            v@,
            i as int,
            pre_cap,
        ));
    }
    assert(camel_from(v@, n as int, cap_next) =~= Seq::<char>::empty());
    assert(out@ + camel_from(v@, n as int, cap_next) =~= out@);
    string_of(&out)
}

// ------------------------------------------------------------------
// Digit parsing
// ------------------------------------------------------------------

/// `c` is an ASCII digit.
pub open spec fn is_digit(c: char) -> bool {
    '0' <= c && c <= '9'
}

/// Numeric value of a digit character.
pub open spec fn digit_val(c: char) -> nat {
    (c as u32 - '0' as u32) as nat
}

/// Every character of `s` is a digit.
pub open spec fn all_digits(s: Seq<char>) -> bool {
    forall|i: int| 0 <= i < s.len() ==> is_digit(#[trigger] s[i])
}

/// Value of a digit string, most significant first.
pub open spec fn digits_val(s: Seq<char>) -> nat
    decreases s.len(),
{
    if s.len() == 0 {
        0
    } else {
        digits_val(s.take(s.len() - 1)) * 10 + digit_val(s[s.len() - 1])
    }
}

proof fn lemma_digits_prefix_le(s: Seq<char>, i: int)
    requires
        0 <= i <= s.len(),
    ensures
        digits_val(s.take(i)) <= digits_val(s),
    decreases s.len() - i,
{
    if i < s.len() {
        lemma_digits_prefix_le(s, i + 1);
        assert(s.take(i + 1).take(i) =~= s.take(i));
        assert(digits_val(s.take(i + 1)) == digits_val(s.take(i)) * 10 + digit_val(
            s.take(i + 1)[i],
        ));
    } else {
        assert(s.take(i) =~= s);
    }
}

/// Parses an unsigned decimal integer: defined exactly when `v` is a
/// non-empty string of digits whose value fits the machine word.
pub fn parse_usize_in(v: &Vec<char>) -> (r: Option<usize>)
    ensures
        match r {
            Some(n) => v@.len() > 0 && all_digits(v@) && n as nat == digits_val(v@),
            None => v@.len() == 0 || !all_digits(v@) || digits_val(v@) > usize::MAX,
        },
{
    if v.len() == 0 {
        return None;
    }
    let n = v.len();
    let mut acc: usize = 0;
    for i in 0..n
        invariant
            n == v@.len(),
            acc as nat == digits_val(v@.take(i as int)),
            forall|m: int| 0 <= m < i ==> is_digit(#[trigger] v@[m]),
    {
        let c = v[i];
        if !('0' <= c && c <= '9') {
            assert(!all_digits(v@));
            return None;
        }
        let d = (c as u32 - '0' as u32) as usize;
        let acc10 = match acc.checked_mul(10) {
            Some(x) => x,
            None => {
                proof {
                    assert(v@.take(i + 1).take(i as int) =~= v@.take(i as int));
                    assert(digits_val(v@.take(i + 1)) == digits_val(v@.take(i as int)) * 10
                        + digit_val(v@.take(i + 1)[i as int]));
                    lemma_digits_prefix_le(v@, i + 1);
                }
                return None;
            },
        };
        let acc2 = match acc10.checked_add(d) {
            Some(x) => x,
            None => {
                proof {
                    assert(v@.take(i + 1).take(i as int) =~= v@.take(i as int));
                    assert(digits_val(v@.take(i + 1)) == digits_val(v@.take(i as int)) * 10
                        + digit_val(v@.take(i + 1)[i as int]));
                    lemma_digits_prefix_le(v@, i + 1);
                }
                return None;
            },
        };
        acc = acc2;
        proof {
            assert(v@.take(i + 1).take(i as int) =~= v@.take(i as int));
            assert(digits_val(v@.take(i + 1)) == digits_val(v@.take(i as int)) * 10 + digit_val(
                v@.take(i + 1)[i as int],
            ));
        }
    }
    assert(v@.take(n as int) =~= v@);
    Some(acc)
}

// ------------------------------------------------------------------
// Whitespace trimming
// ------------------------------------------------------------------

/// `c` is ASCII whitespace.
pub open spec fn is_ws(c: char) -> bool {
    c == ' ' || c == '\t' || c == '\n' || c == '\r'
}

/// `s` without leading whitespace.
pub open spec fn trim_front(s: Seq<char>) -> Seq<char>
    decreases s.len(),
{
    if s.len() > 0 && is_ws(s[0]) {
        trim_front(s.skip(1))
    } else {
        s
    }
}

/// `s` without trailing whitespace.
pub open spec fn trim_back(s: Seq<char>) -> Seq<char>
    decreases s.len(),
{
    if s.len() > 0 && is_ws(s[s.len() - 1]) {
        trim_back(s.take(s.len() - 1))
    } else {
        s
    }
}

/// `s` without leading or trailing whitespace.
pub open spec fn trim_seq(s: Seq<char>) -> Seq<char> {
    trim_back(trim_front(s))
}

/// Trimming does not lengthen a string.
pub proof fn lemma_trim_front_len(s: Seq<char>)
    ensures
        trim_front(s).len() <= s.len(),
    decreases s.len(),
{
    if s.len() > 0 && is_ws(s[0]) {
        lemma_trim_front_len(s.skip(1));
    }
}

/// Trimming does not lengthen a string.
pub proof fn lemma_trim_back_len(s: Seq<char>)
    ensures
        trim_back(s).len() <= s.len(),
    decreases s.len(),
{
    if s.len() > 0 && is_ws(s[s.len() - 1]) {
        lemma_trim_back_len(s.take(s.len() - 1));
    }
}

/// Trimming does not lengthen a string.
pub proof fn lemma_trim_len(s: Seq<char>)
    ensures
        trim_seq(s).len() <= s.len(),
{
    lemma_trim_front_len(s);
    lemma_trim_back_len(trim_front(s));
}

fn is_ws_x(c: char) -> (r: bool)
    ensures
        r == is_ws(c),
{
    c == ' ' || c == '\t' || c == '\n' || c == '\r'
}

fn trim_front_x(v: &Vec<char>) -> (r: Vec<char>)
    ensures
        r@ == trim_front(v@),
    decreases v@.len(),
{
    if v.len() > 0 && is_ws_x(v[0]) {
        let t = slice_of(v, 1, v.len());
        assert(t@ =~= v@.skip(1));
        trim_front_x(&t)
    } else {
        v.clone()
    }
}

fn trim_back_x(v: &Vec<char>) -> (r: Vec<char>)
    ensures
        r@ == trim_back(v@),
    decreases v@.len(),
{
    if v.len() > 0 && is_ws_x(v[v.len() - 1]) {
        let t = slice_of(v, 0, v.len() - 1);
        assert(t@ =~= v@.take(v@.len() - 1));
        trim_back_x(&t)
    } else {
        v.clone()
    }
}

/// Removes leading and trailing whitespace.
pub fn trim_in(v: &Vec<char>) -> (r: Vec<char>)
    ensures
        r@ == trim_seq(v@),
{
    let f = trim_front_x(v);
    trim_back_x(&f)
}

// ------------------------------------------------------------------
// Source type names to description type terms
// ------------------------------------------------------------------

/// The element count parsed out of a byte-array descriptor `[u8; N]`.
pub open spec fn spec_array_count(t: Seq<char>) -> Option<nat> {
    let inner = trim_seq(t.subrange(4, t.len() - 1));
    if inner.len() > 0 && all_digits(inner) && digits_val(inner) <= usize::MAX {
        Some(digits_val(inner))
    } else {
        None
    }
}

/// The description type term for a trimmed source type name.  Optional and
/// sequence wrappers recurse on the trimmed inner name; `[u8; 32]` and the
/// 32-byte key types map to the key type; an unknown capitalized name is a
/// defined-type reference.
pub open spec fn spec_rust_type(t: Seq<char>) -> IdlTypeView
    decreases t.len(),
    via spec_rust_type_decreases
{
    if starts_with_seq(t, "Option<"@) && ends_with_seq(t, ">"@) && t.len() >= 8 {
        IdlTypeView::Opt(
            std::boxed::Box::new(spec_rust_type(trim_seq(t.subrange(7, t.len() - 1)))),
        )
    } else if starts_with_seq(t, "Vec<"@) && ends_with_seq(t, ">"@) && t.len() >= 5 {
        IdlTypeView::Vect(
            std::boxed::Box::new(spec_rust_type(trim_seq(t.subrange(4, t.len() - 1)))),
        )
    } else if starts_with_seq(t, "[u8;"@) && ends_with_seq(t, "]"@) && t.len() >= 5
        && spec_array_count(t) is Some {
        let n = spec_array_count(t)->Some_0;
        if n == 32 {
            IdlTypeView::Simple("publicKey"@)
        } else {
            IdlTypeView::Arr { inner: std::boxed::Box::new(IdlTypeView::Simple("u8"@)), n }
        }
    } else if contains_seq(t, "[u8"@) && contains_seq(t, "32"@) && contains_seq(t, "]"@) {
        IdlTypeView::Simple("publicKey"@)
    } else if t == "u8"@ || t == "u16"@ || t == "u32"@ || t == "u64"@ || t == "u128"@
        || t == "i8"@ || t == "i16"@ || t == "i32"@ || t == "i64"@ || t == "i128"@
        || t == "bool"@ {
        IdlTypeView::Simple(t)
    } else if t == "String"@ || t == "&str"@ || t == "str"@ {
        IdlTypeView::Simple("string"@)
    } else if t == "Pubkey"@ || t == "pubkey::Pubkey"@ {
        IdlTypeView::Simple("publicKey"@)
    } else if t.len() > 0 && is_upper(t[0]) {
        IdlTypeView::Defined(t)
    } else {
        IdlTypeView::Simple(t)
    }
}

#[via_fn]
proof fn spec_rust_type_decreases(t: Seq<char>) {
    lemma_trim_len(t.subrange(7, t.len() - 1));
    lemma_trim_len(t.subrange(4, t.len() - 1));
}

fn rust_type_core(t: &Vec<char>) -> (r: IdlType)
    ensures
        idl_type_view(r) == spec_rust_type(t@),
    decreases t@.len(),
{
    let optp = chars_of("Option<");
    let vecp = chars_of("Vec<");
    let closep = chars_of(">");
    let arrp = chars_of("[u8;");
    let closeb = chars_of("]");
    if starts_with_in(t, &optp) && ends_with_in(t, &closep) && t.len() >= 8 {
        let sub = slice_of(t, 7, t.len() - 1);
        let inner = trim_in(&sub);
        proof {
            lemma_trim_len(sub@);
        }
        let i = rust_type_core(&inner);
        return IdlType::Option { option: std::boxed::Box::new(i) };
    }
    if starts_with_in(t, &vecp) && ends_with_in(t, &closep) && t.len() >= 5 {
        let sub = slice_of(t, 4, t.len() - 1);
        let inner = trim_in(&sub);
        proof {
            lemma_trim_len(sub@);
        }
        let i = rust_type_core(&inner);
        return IdlType::Vec { vec: std::boxed::Box::new(i) };
    }
    if starts_with_in(t, &arrp) && ends_with_in(t, &closeb) && t.len() >= 5 {
        let sub = slice_of(t, 4, t.len() - 1);
        let inner = trim_in(&sub);
        match parse_usize_in(&inner) {
            Some(n) => {
                proof {
                    assert(inner@ == trim_seq(t@.subrange(4, t@.len() - 1)));
                    assert(spec_array_count(t@) is Some);
                    assert(spec_array_count(t@)->Some_0 == n as nat);
                }
                if n == 32 {
                    return IdlType::Simple(String::from_str("publicKey"));
                } else {
                    let u8name = String::from_str("u8");
                    let r = IdlType::Array {
                        array: (std::boxed::Box::new(IdlType::Simple(u8name)), n),
                    };
                    proof {
                        assert(r->array.1 == n);
                        assert(*r->array.0 == IdlType::Simple(u8name));
                        assert(idl_type_view(*r->array.0) == IdlTypeView::Simple(u8name@));
                        assert(u8name@ == "u8"@);
                        assert(idl_type_view(*r->array.0) == IdlTypeView::Simple("u8"@));
                        assert(idl_type_view(r) == IdlTypeView::Arr {
                            inner: std::boxed::Box::new(idl_type_view(*r->array.0)),
                            n: r->array.1 as nat,
                        });
                        assert(idl_type_view(r) == IdlTypeView::Arr {
                            inner: std::boxed::Box::new(IdlTypeView::Simple("u8"@)),
                            n: n as nat,
                        });
                    }
                    return r;
                }
            },
            None => {},
        }
    }
    let p1 = chars_of("[u8");
    let p2 = chars_of("32");
    if contains_in(t, &p1) && contains_in(t, &p2) && contains_in(t, &closeb) {
        return IdlType::Simple(String::from_str("publicKey"));
    }
    if eq_str(t, "u8") || eq_str(t, "u16") || eq_str(t, "u32") || eq_str(t, "u64") || eq_str(
        t,
        "u128",
    ) || eq_str(t, "i8") || eq_str(t, "i16") || eq_str(t, "i32") || eq_str(t, "i64") || eq_str(
        t,
        "i128",
    ) || eq_str(t, "bool") {
        return IdlType::Simple(string_of(t));
    }
    if eq_str(t, "String") || eq_str(t, "&str") || eq_str(t, "str") {
        return IdlType::Simple(String::from_str("string"));
    }
    if eq_str(t, "Pubkey") || eq_str(t, "pubkey::Pubkey") {
        return IdlType::Simple(String::from_str("publicKey"));
    }
    if t.len() > 0 && is_upper_x(t[0]) {
        return IdlType::Defined { defined: string_of(t) };
    }
    IdlType::Simple(string_of(t))
}

/// Maps a source type name to its description type term; surrounding
/// whitespace is ignored.
pub fn rust_type_to_idl_type(ty: &str) -> (r: IdlType)
    ensures
        idl_type_view(r) == spec_rust_type(trim_seq(ty@)),
{
    let v = chars_of(ty);
    let t = trim_in(&v);
    rust_type_core(&t)
}

// ------------------------------------------------------------------
// Content-derived discriminators
// ------------------------------------------------------------------

/// The 32-byte digest of a byte string, as the outside hash function
/// computes it: a function of the input alone.
pub uninterp spec fn sha256_of(data: Seq<u8>) -> Seq<u8>;

/// Relies on sha2::Sha256: the digest is 32 bytes and depends on the input
/// alone.
#[verifier::external_body]
fn sha256_digest(data: &[u8]) -> (r: Vec<u8>)
    ensures
        r@ == sha256_of(data@),
        r@.len() == 32,
{
    let d = <sha2::Sha256 as sha2::Digest>::digest(data);
    d.as_slice().to_vec()
}

/// The 8-byte discriminator for `namespace` and `name`: the first eight
/// bytes of the digest of the ASCII string `namespace:name`.
pub open spec fn spec_discriminator(namespace: Seq<char>, name: Seq<char>) -> Seq<u8> {
    sha256_of(vstd::utf8::encode_utf8(namespace + ":"@ + name)).take(8)
}

/// Computes the content-derived discriminator: the first eight bytes of the
/// digest of `namespace:name`.
pub fn calculate_discriminator(namespace: &str, name: &str) -> (r: Vec<u8>)
    ensures
        r@ == spec_discriminator(namespace@, name@),
        r@.len() == 8,
{
    let mut v = chars_of(namespace);
    append_str(&mut v, ":");
    append_str(&mut v, name);
    let s = string_of(&v);
    assert(s@ == namespace@ + ":"@ + name@);
    let digest = sha256_digest(s.as_str().as_bytes());
    let mut r: Vec<u8> = Vec::new();
    for i in 0..8usize
        invariant
            digest@.len() == 32,
            r@ =~= digest@.subrange(0, i as int),
    {
        r.push(digest[i]);
    }
    assert(r@ =~= sha256_of(vstd::utf8::encode_utf8(namespace@ + ":"@ + name@)).take(8));
    r
}

/// The content-derived discriminator is a pure function of the namespace and
/// the instruction name: equal names give equal discriminators.
pub proof fn lemma_discriminator_deterministic(
    ns1: Seq<char>,
    n1: Seq<char>,
    ns2: Seq<char>,
    n2: Seq<char>,
)
    requires
        ns1 == ns2,
        n1 == n2,
    ensures
        spec_discriminator(ns1, n1) == spec_discriminator(ns2, n2),
{
}

// ------------------------------------------------------------------
// Description generation
// ------------------------------------------------------------------

/// Error code assigned to the `i`-th declared error, clamped to `u32`.
pub open spec fn spec_error_code(i: int) -> nat {
    if 6000 + i > u32::MAX {
        u32::MAX as nat
    } else {
        (6000 + i) as nat
    }
}

/// Describes one error under the given code.
pub fn error_to_idl(err: &PinocchioError, code: u32) -> (r: IdlError)
    ensures
        r.code == code,
        r.name@ == err.name@,
        r.msg is Some && r.msg->Some_0@ == err.msg@,
{
    IdlError { code, name: err.name.clone(), msg: Some(err.msg.clone()) }
}

/// Describes one instruction: names in camel case, the account role flags,
/// the argument types, and the content-derived discriminator.
pub fn instruction_to_idl(inst: &PinocchioInstruction) -> (r: IdlInstruction)
    ensures
        r.name@ == camel_seq(inst.name@),
        r.docs is None,
        r.discriminator is Some && r.discriminator->Some_0@ == spec_discriminator(
            "global"@,
            snake_seq(inst.name@),
        ),
        r.accounts@.len() == inst.accounts@.len(),
        forall|i: int|
            0 <= i < inst.accounts@.len() ==> {
                &&& (#[trigger] r.accounts@[i]).name@ == camel_seq(inst.accounts@[i].name@)
                &&& r.accounts@[i].is_mut == inst.accounts@[i].is_writable
                &&& r.accounts@[i].is_signer == inst.accounts@[i].is_signer
                &&& r.accounts@[i].docs is None
            },
        r.args@.len() == inst.args@.len(),
        forall|i: int|
            0 <= i < inst.args@.len() ==> {
                &&& (#[trigger] r.args@[i]).name@ == camel_seq(inst.args@[i].name@)
                &&& idl_type_view(r.args@[i].ty) == spec_rust_type(trim_seq(inst.args@[i].ty@))
            },
{
    let snake = to_snake_case(inst.name.as_str());
    let disc = calculate_discriminator("global", snake.as_str());
    let n = inst.accounts.len();
    let mut accounts: Vec<IdlAccountItem> = Vec::new();
    for i in 0..n
        invariant
            n == inst.accounts@.len(),
            accounts@.len() == i,
            forall|m: int|
                0 <= m < i ==> {
                    &&& (#[trigger] accounts@[m]).name@ == camel_seq(inst.accounts@[m].name@)
                    &&& accounts@[m].is_mut == inst.accounts@[m].is_writable
                    &&& accounts@[m].is_signer == inst.accounts@[m].is_signer
                    &&& accounts@[m].docs is None
                },
    {
        let a = &inst.accounts[i];
        accounts.push(
            IdlAccountItem {
                name: to_camel_case(a.name.as_str()),
                is_mut: a.is_writable,
                is_signer: a.is_signer,
                docs: None,
            },
        );
    }
    let na = inst.args.len();
    let mut args: Vec<IdlArg> = Vec::new();
    for i in 0..na
        invariant
            na == inst.args@.len(),
            args@.len() == i,
            forall|m: int|
                0 <= m < i ==> {
                    &&& (#[trigger] args@[m]).name@ == camel_seq(inst.args@[m].name@)
                    &&& idl_type_view(args@[m].ty) == spec_rust_type(trim_seq(inst.args@[m].ty@))
                },
    {
        let a = &inst.args[i];
        args.push(
            IdlArg { name: to_camel_case(a.name.as_str()), ty: rust_type_to_idl_type(a.ty.as_str()) },
        );
    }
    IdlInstruction {
        name: to_camel_case(inst.name.as_str()),
        docs: None,
        accounts,
        args,
        discriminator: Some(disc),
    }
}

/// Describes one state record as a struct with camel-case field names.
pub fn state_to_idl_account(state: &PinocchioState) -> (r: IdlAccount)
    ensures
        r.name@ == state.name@,
        r.ty.kind@ == "struct"@,
        r.ty.fields@.len() == state.fields@.len(),
        forall|i: int|
            0 <= i < state.fields@.len() ==> {
                &&& (#[trigger] r.ty.fields@[i]).name@ == camel_seq(state.fields@[i].name@)
                &&& idl_type_view(r.ty.fields@[i].ty) == spec_rust_type(
                    trim_seq(state.fields@[i].ty@),
                )
                &&& r.ty.fields@[i].docs is None
            },
{
    let n = state.fields.len();
    let mut fields: Vec<IdlField> = Vec::new();
    for i in 0..n
        invariant
            n == state.fields@.len(),
            fields@.len() == i,
            forall|m: int|
                0 <= m < i ==> {
                    &&& (#[trigger] fields@[m]).name@ == camel_seq(state.fields@[m].name@)
                    &&& idl_type_view(fields@[m].ty) == spec_rust_type(
                        trim_seq(state.fields@[m].ty@),
                    )
                    &&& fields@[m].docs is None
                },
    {
        let f = &state.fields[i];
        fields.push(
            IdlField {
                name: to_camel_case(f.name.as_str()),
                ty: rust_type_to_idl_type(f.ty.as_str()),
                docs: None,
            },
        );
    }
    IdlAccount {
        name: state.name.clone(),
        ty: IdlAccountType { kind: String::from_str("struct"), fields },
    }
}

/// Generates the whole interface description of a target-form program:
/// every instruction with its discriminator and role flags, every state
/// record, and the errors numbered from 6000 in declaration order.
pub fn generate_idl(program: &PinocchioProgram, program_id: Option<&str>) -> (r: Idl)
    ensures
        r.version@ == "0.1.0"@,
        r.name@ == snake_seq(program.name@),
        r.instructions@.len() == program.instructions@.len(),
        forall|i: int|
            0 <= i < program.instructions@.len() ==> {
                let src = program.instructions@[i];
                let g = #[trigger] r.instructions@[i];
                &&& g.name@ == camel_seq(src.name@)
                &&& g.discriminator is Some
                &&& g.discriminator->Some_0@ == spec_discriminator(
                    "global"@,
                    snake_seq(src.name@),
                )
                &&& g.accounts@.len() == src.accounts@.len()
                &&& forall|k: int|
                    0 <= k < src.accounts@.len() ==> {
                        &&& (#[trigger] g.accounts@[k]).name@ == camel_seq(src.accounts@[k].name@)
                        &&& g.accounts@[k].is_mut == src.accounts@[k].is_writable
                        &&& g.accounts@[k].is_signer == src.accounts@[k].is_signer
                    }
                &&& g.args@.len() == src.args@.len()
                &&& forall|k: int|
                    0 <= k < src.args@.len() ==> {
                        &&& (#[trigger] g.args@[k]).name@ == camel_seq(src.args@[k].name@)
                        &&& idl_type_view(g.args@[k].ty) == spec_rust_type(
                            trim_seq(src.args@[k].ty@),
                        )
                    }
            },
        r.accounts@.len() == program.state_structs@.len(),
        forall|i: int|
            0 <= i < program.state_structs@.len() ==> {
                let src = program.state_structs@[i];
                let g = #[trigger] r.accounts@[i];
                &&& g.name@ == src.name@
                &&& g.ty.kind@ == "struct"@
                &&& g.ty.fields@.len() == src.fields@.len()
                &&& forall|k: int|
                    0 <= k < src.fields@.len() ==> {
                        &&& (#[trigger] g.ty.fields@[k]).name@ == camel_seq(src.fields@[k].name@)
                        &&& idl_type_view(g.ty.fields@[k].ty) == spec_rust_type(
                            trim_seq(src.fields@[k].ty@),
                        )
                    }
            },
        r.errors@.len() == program.errors@.len(),
        forall|i: int|
            0 <= i < program.errors@.len() ==> {
                &&& (#[trigger] r.errors@[i]).code as nat == spec_error_code(i)
                &&& r.errors@[i].name@ == program.errors@[i].name@
                &&& r.errors@[i].msg is Some && r.errors@[i].msg->Some_0@
                    == program.errors@[i].msg@
            },
        match program_id {
            Some(a) => r.metadata is Some && r.metadata->Some_0.address@ == a@,
            None => r.metadata is None,
        },
{
    let n = program.instructions.len();
    let mut instructions: Vec<IdlInstruction> = Vec::new();
    for i in 0..n
        invariant
            n == program.instructions@.len(),
            instructions@.len() == i,
            forall|m: int|
                0 <= m < i ==> {
                    let src = program.instructions@[m];
                    let g = #[trigger] instructions@[m];
                    &&& g.name@ == camel_seq(src.name@)
                    &&& g.discriminator is Some
                    &&& g.discriminator->Some_0@ == spec_discriminator(
                        "global"@,
                        snake_seq(src.name@),
                    )
                    &&& g.accounts@.len() == src.accounts@.len()
                    &&& forall|k: int|
                        0 <= k < src.accounts@.len() ==> {
                            &&& (#[trigger] g.accounts@[k]).name@ == camel_seq(
                                src.accounts@[k].name@,
                            )
                            &&& g.accounts@[k].is_mut == src.accounts@[k].is_writable
                            &&& g.accounts@[k].is_signer == src.accounts@[k].is_signer
                        }
                    &&& g.args@.len() == src.args@.len()
                    &&& forall|k: int|
                        0 <= k < src.args@.len() ==> {
                            &&& (#[trigger] g.args@[k]).name@ == camel_seq(src.args@[k].name@)
                            &&& idl_type_view(g.args@[k].ty) == spec_rust_type(
                                trim_seq(src.args@[k].ty@),
                            )
                        }
                },
    {
        instructions.push(instruction_to_idl(&program.instructions[i]));
    }
    let ns = program.state_structs.len();
    let mut accounts: Vec<IdlAccount> = Vec::new();
    for i in 0..ns
        invariant
            ns == program.state_structs@.len(),
            accounts@.len() == i,
            forall|m: int|
                0 <= m < i ==> {
                    let src = program.state_structs@[m];
                    let g = #[trigger] accounts@[m];
                    &&& g.name@ == src.name@
                    &&& g.ty.kind@ == "struct"@
                    &&& g.ty.fields@.len() == src.fields@.len()
                    &&& forall|k: int|
                        0 <= k < src.fields@.len() ==> {
                            &&& (#[trigger] g.ty.fields@[k]).name@ == camel_seq(
                                src.fields@[k].name@,
                            )
                            &&& idl_type_view(g.ty.fields@[k].ty) == spec_rust_type(
                                trim_seq(src.fields@[k].ty@),
                            )
                        }
                },
    {
        accounts.push(state_to_idl_account(&program.state_structs[i]));
    }
    let ne = program.errors.len();
    let mut errors: Vec<IdlError> = Vec::new();
    for i in 0..ne
        invariant
            ne == program.errors@.len(),
            errors@.len() == i,
            forall|m: int|
                0 <= m < i ==> {
                    &&& (#[trigger] errors@[m]).code as nat == spec_error_code(m)
                    &&& errors@[m].name@ == program.errors@[m].name@
                    &&& errors@[m].msg is Some && errors@[m].msg->Some_0@
                        == program.errors@[m].msg@
                },
    {
        let code: u32 = if i <= (u32::MAX - 6000) as usize {
            6000 + (i as u32)
        } else {
            u32::MAX
        };
        errors.push(error_to_idl(&program.errors[i], code));
    }
    let metadata = match program_id {
        Some(addr) => Some(
            IdlMetadata { address: String::from_str(addr), origin: Some(String::from_str("uncpi")) },
        ),
        None => None,
    };
    Idl {
        version: String::from_str("0.1.0"),
        name: to_snake_case(program.name.as_str()),
        instructions,
        accounts,
        errors,
        metadata,
    }
}

// ------------------------------------------------------------------
// Description verification
// ------------------------------------------------------------------

/// Plain summary of an existing description, handed in by the caller: for
/// each instruction its name, account count and argument count; for each
/// account its name and field count; and the error count.  A `None` part was
/// absent from the description.
#[derive(Debug, PartialEq)]
pub struct IdlSummary {
    pub instructions: Option<Vec<(String, usize, usize)>>,
    pub accounts: Option<Vec<(String, usize)>>,
    pub errors: Option<usize>,
}

/// Outcome of comparing a generated description with an existing one.
#[derive(Debug, PartialEq)]
pub struct IdlVerification {
    pub is_compatible: bool,
    pub total_instructions: usize,
    pub matching_instructions: usize,
    pub total_accounts: usize,
    pub matching_accounts: usize,
    pub total_errors: usize,
    pub matching_errors: usize,
    pub issues: Vec<String>,
}

/// Generated instruction `g` agrees with an original entry: same name, same
/// account count, same argument count.
pub open spec fn spec_inst_match(g: IdlInstruction, name: Seq<char>, accs: int, args: int) -> bool {
    g.name@ == name && g.accounts@.len() == accs && g.args@.len() == args
}

/// Number of original instruction entries from `i` on that the generated
/// list agrees with, position by position.
pub open spec fn count_inst_matches(
    gen: Seq<IdlInstruction>,
    orig: Seq<(String, usize, usize)>,
    i: int,
) -> nat
    decreases orig.len() - i,
{
    if i < 0 || i >= orig.len() {
        0
    } else {
        (if i < gen.len() && spec_inst_match(gen[i], orig[i].0@, orig[i].1 as int, orig[i].2 as int) {
            1nat
        } else {
            0nat
        }) + count_inst_matches(gen, orig, i + 1)
    }
}

/// Generated account `g` agrees with an original entry: same name, same
/// field count.
pub open spec fn spec_acct_match(g: IdlAccount, name: Seq<char>, fields: int) -> bool {
    g.name@ == name && g.ty.fields@.len() == fields
}

/// Number of original account entries from `i` on that the generated list
/// agrees with, position by position.
pub open spec fn count_acct_matches(gen: Seq<IdlAccount>, orig: Seq<(String, usize)>, i: int) -> nat
    decreases orig.len() - i,
{
    if i < 0 || i >= orig.len() {
        0
    } else {
        (if i < gen.len() && spec_acct_match(gen[i], orig[i].0@, orig[i].1 as int) {
            1nat
        } else {
            0nat
        }) + count_acct_matches(gen, orig, i + 1)
    }
}

/// Compares a generated description against the summary of an existing one,
/// position by position.  The counts are exact; an entry that disagrees or
/// is missing contributes one issue, and one more issue is added when the
/// error counts differ.
pub fn verify_idl(generated: &Idl, original: &IdlSummary) -> (r: IdlVerification)
    ensures
        r.total_instructions == (match original.instructions {
            Some(v) => v@.len(),
            None => 0,
        }),
        r.matching_instructions as nat == (match original.instructions {
            Some(v) => count_inst_matches(generated.instructions@, v@, 0),
            None => 0,
        }),
        r.total_accounts == (match original.accounts {
            Some(v) => v@.len(),
            None => 0,
        }),
        r.matching_accounts as nat == (match original.accounts {
            Some(v) => count_acct_matches(generated.accounts@, v@, 0),
            None => 0,
        }),
        r.total_errors == (match original.errors {
            Some(n) => n,
            None => 0,
        }),
        r.matching_errors == (match original.errors {
            Some(n) => if generated.errors@.len() == n {
                n
            } else {
                0
            },
            None => 0,
        }),
        r.is_compatible == (r.matching_instructions == r.total_instructions
            && r.matching_accounts == r.total_accounts && (match original.errors {
            Some(n) => generated.errors@.len() == n,
            None => true,
        })),
        r.issues@.len() == (r.total_instructions - r.matching_instructions)
            + (r.total_accounts - r.matching_accounts) + (match original.errors {
            Some(n) => if generated.errors@.len() == n {
                0int
            } else {
                1int
            },
            None => 0int,
        }),
{
    let mut issues: Vec<String> = Vec::new();
    let mut total_instructions: usize = 0;
    let mut matching_instructions: usize = 0;
    match &original.instructions {
        Some(orig) => {
            let n = orig.len();
            total_instructions = n;
            for i in 0..n
                invariant
                    n == orig@.len(),
                    matching_instructions <= i,
                    issues@.len() == i - matching_instructions,
                    count_inst_matches(generated.instructions@, orig@, 0)
                        == matching_instructions + count_inst_matches(
                        generated.instructions@,
                        orig@,
                        i as int,
                    ),
            {
                let entry = &orig[i];
                let mut ok = false;
                if i < generated.instructions.len() {
                    let g = &generated.instructions[i];
                    if str_eq(g.name.as_str(), entry.0.as_str()) && g.accounts.len() == entry.1
                        && g.args.len() == entry.2 {
                        ok = true;
                    }
                }
                if ok {
                    matching_instructions += 1;
                } else {
                    issues.push(entry.0.clone());
                }
            }
        },
        None => {},
    }
    let mut total_accounts: usize = 0;
    let mut matching_accounts: usize = 0;
    match &original.accounts {
        Some(orig) => {
            let n = orig.len();
            total_accounts = n;
            let ghost issues0 = issues@.len() as int;
            for i in 0..n
                invariant
                    n == orig@.len(),
                    matching_accounts <= i,
                    issues@.len() == issues0 + i - matching_accounts,
                    count_acct_matches(generated.accounts@, orig@, 0) == matching_accounts
                        + count_acct_matches(generated.accounts@, orig@, i as int),
            {
                let entry = &orig[i];
                let mut ok = false;
                if i < generated.accounts.len() {
                    let g = &generated.accounts[i];
                    if str_eq(g.name.as_str(), entry.0.as_str()) && g.ty.fields.len() == entry.1 {
                        ok = true;
                    }
                }
                if ok {
                    matching_accounts += 1;
                } else {
                    issues.push(entry.0.clone());
                }
            }
        },
        None => {},
    }
    let mut total_errors: usize = 0;
    let mut matching_errors: usize = 0;
    let mut errors_ok = true;
    match original.errors {
        Some(nerr) => {
            total_errors = nerr;
            if generated.errors.len() == nerr {
                matching_errors = nerr;
            } else {
                errors_ok = false;
                issues.push(String::from_str("errors"));
            }
        },
        None => {},
    }
    let is_compatible = matching_instructions == total_instructions && matching_accounts
        == total_accounts && errors_ok;
    IdlVerification {
        is_compatible,
        total_instructions,
        matching_instructions,
        total_accounts,
        matching_accounts,
        total_errors,
        matching_errors,
        issues,
    }
}

} // verus!
