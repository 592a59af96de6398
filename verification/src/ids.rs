//! Unique identifiers made of the current time and a random number.
use vstd::prelude::*;
use crate::text::{append_chars, decimal, decimal_chars_u64, string_of};
use crate::syndication::{signed_decimal, signed_decimal_text};

verus! {

/// `chrono::Utc::now().timestamp_nanos_opt()`: the current time in
/// nanoseconds since the Unix epoch, `None` outside the range of `i64`.
/// Nothing is stated of it: it is the time of the call.
#[verifier::external_body]
fn now_nanos() -> (r: Option<i64>) {
    chrono::Utc::now().timestamp_nanos_opt()
}

/// `rand::random::<u32>()`: a random number. Nothing is stated of it.
#[verifier::external_body]
pub(crate) fn random_u32() -> (r: u32) {
    rand::random::<u32>()
}

/// The identifier of time `nanos` and random number `r`: both in decimal,
/// joined by `-`.
pub open spec fn spec_unique_id(nanos: i64, r: u32) -> Seq<char> {
    signed_decimal(nanos as int) + seq!['-'] + decimal(r as nat)
}

/// The identifier of a time and a random number.
pub fn unique_id_of(nanos: i64, r: u32) -> (s: String)
    ensures
        s@ == spec_unique_id(nanos, r),
{
    let mut v = signed_decimal_text(nanos);
    v.push('-');
    let d = decimal_chars_u64(r as u64);
    append_chars(&mut v, d.as_slice());
    string_of(v.as_slice())
}

/// A new identifier: the current time in nanoseconds (0 when it does not
/// fit) and a random number.
pub fn generate_unique_id() -> (s: String)
    ensures
        exists|nanos: i64, r: u32| s@ == spec_unique_id(nanos, r),
{
    let nanos: i64 = match now_nanos() {
        Some(n) => n,
        None => 0,
    };
    let r = random_u32();
    unique_id_of(nanos, r)
}

} // verus!
