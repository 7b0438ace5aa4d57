//! The build a running service was made from, as text.

use vstd::prelude::*;

verus! {

/// The digit for a number below sixteen.
pub open spec fn hex_digit(n: int) -> char {
    "0123456789abcdef"@[n]
}

/// Bytes in hexadecimal: two digits a byte, the high half first, letters in lower case.
pub open spec fn hex_of(bytes: Seq<u8>) -> Seq<char> {
    Seq::new(
        2 * bytes.len(),
        |i: int|
            if i % 2 == 0 {
                hex_digit(bytes[i / 2] as int / 16)
            } else {
                hex_digit(bytes[i / 2] as int % 16)
            },
    )
}

/// How a build is named: by its identifier in hexadecimal, or as unknown.
pub open spec fn build_label(id: Option<Seq<u8>>) -> Seq<char> {
    match id {
        Some(bytes) => hex_of(bytes),
        None => "unknown"@,
    }
}

/// `hex::encode`: for each byte, in order, the digit of its high half and the
/// digit of its low half, taken from `0123456789abcdef`.
#[verifier::external_body]
fn hex_text(bytes: &[u8]) -> (text: String)
    ensures
        text@ == hex_of(bytes@),
{
    hex::encode(bytes)
}

/// `buildid::build_id`: the identifier that the linker left in the running
/// program, where it left one. It differs from build to build, so nothing is
/// said of it.
#[verifier::external_body]
fn running_build() -> (id: Option<&'static [u8]>) {
    buildid::build_id()
}

/// Names a build by its identifier.
pub fn label_of(id: Option<&[u8]>) -> (label: String)
    ensures
        label@ == build_label(
            match id {
                Some(bytes) => Some(bytes@),
                None => None,
            },
        ),
{
    match id {
        Some(bytes) => hex_text(bytes),
        None => "unknown".to_owned(),
    }
}

/// Names the build of the running program.
pub fn running_label() -> (label: String)
    ensures
        exists|id: Option<Seq<u8>>| label@ == build_label(id),
{
    label_of(running_build())
}

} // verus!
