use vstd::prelude::*;

verus! {

/// The decimal digit for `d < 10`.
pub open spec fn digit_char(d: nat) -> char {
    seq!['0', '1', '2', '3', '4', '5', '6', '7', '8', '9'][d as int]
}

/// `n` written in decimal, with no leading zeros.
pub open spec fn decimal(n: nat) -> Seq<char>
    decreases n,
{
    if n < 10 {
        seq![digit_char(n)]
    } else {
        decimal(n / 10) + seq![digit_char(n % 10)]
    }
}

/// The listening address `host:port`.
pub open spec fn address_of(host: Seq<char>, port: u16) -> Seq<char> {
    host + seq![':'] + decimal(port as nat)
}

/// Relies on `format!` with std's `Display` for `String` (the text as it is)
/// and for `u16` (decimal, no leading zeros).
#[verifier::external_body]
pub(crate) fn format_address(host: &String, port: u16) -> (r: String)
    ensures
        r@ == address_of(host@, port),
{
    format!("{}:{}", host, port)
}

} // verus!
