use vstd::prelude::*;

verus! {

/// Relies on rand::Rng::gen_range over rand's thread-local generator: for
/// a non-empty half-open range it returns a uniformly drawn value inside
/// the range; it panics only on an empty range, which the precondition
/// rules out.  Nothing more is promised of the draw.
#[verifier::external_body]
pub(crate) fn random_below(n: u64) -> (r: u64)
    requires
        n > 0,
    ensures
        r < n,
{
    rand::Rng::gen_range(&mut rand::thread_rng(), 0..n)
}

/// Relies on char::from_u32: every value below 0xD800 is a valid Unicode
/// scalar value, so the conversion returns Some of exactly that code
/// point.  The fallback arm is unreachable under the precondition.
#[verifier::external_body]
pub(crate) fn char_from_code(code: u32) -> (c: char)
    requires
        code < 0xD800,
    ensures
        c as u32 == code,
{
    match char::from_u32(code) {
        Some(c) => c,
        None => '?',
    }
}

} // verus!
