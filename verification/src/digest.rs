//! SHA-1 digests and their hexadecimal form.

use sha1::Digest;
use vstd::prelude::*;
use vstd::string::StringExecFns;

verus! {

/// The SHA-1 digest of `message`.
pub uninterp spec fn sha1_digest(message: Seq<u8>) -> Seq<u8>;

/// The length in bytes of a SHA-1 digest.
pub const SHA1_DIGEST_BYTES: usize = 20;

/// The longest message, in bytes, that is handed to SHA-1: the algorithm
/// records the length of its message in bits, in 64 bits.
pub const SHA1_MAX_MESSAGE_BYTES: u64 = 0x1fff_ffff_ffff_ffff;

/// Calls `sha1::Sha1::digest`, the one-shot form of the hasher. The result
/// is taken to be the SHA-1 digest of the message, twenty bytes long.
/// Messages whose length in bits does not fit in 64 bits are kept out: on
/// them the hasher's length arithmetic overflows.
#[verifier::external_body]
pub(crate) fn sha1(message: &[u8]) -> (digest: Vec<u8>)
    requires
        message@.len() <= SHA1_MAX_MESSAGE_BYTES,
    ensures
        digest@ == sha1_digest(message@),
        digest@.len() == SHA1_DIGEST_BYTES,
{
    sha1::Sha1::digest(message).to_vec()
}

/// The character that writes the hexadecimal digit `d` in lower case.
pub open spec fn hex_digit(d: nat) -> char
    recommends
        d < 16,
{
    if d == 0 {
        '0'
    } else if d == 1 {
        '1'
    } else if d == 2 {
        '2'
    } else if d == 3 {
        '3'
    } else if d == 4 {
        '4'
    } else if d == 5 {
        '5'
    } else if d == 6 {
        '6'
    } else if d == 7 {
        '7'
    } else if d == 8 {
        '8'
    } else if d == 9 {
        '9'
    } else if d == 10 {
        'a'
    } else if d == 11 {
        'b'
    } else if d == 12 {
        'c'
    } else if d == 13 {
        'd'
    } else if d == 14 {
        'e'
    } else {
        'f'
    }
}

/// The bytes of `bytes` in lower-case hexadecimal, two digits for each byte,
/// the high half of a byte first.
pub open spec fn hex_text(bytes: Seq<u8>) -> Seq<char> {
    Seq::new(
        2 * bytes.len(),
        |i: int|
            if i % 2 == 0 {
                hex_digit((bytes[i / 2] / 16) as nat)
            } else {
                hex_digit((bytes[i / 2] % 16) as nat)
            },
    )
}

/// The one-character string of a hexadecimal digit.
fn hex_digit_str(d: u8) -> (s: &'static str)
    requires
        d < 16,
    ensures
        s@ == seq![hex_digit(d as nat)],
{
    proof {
        reveal_strlit("0");
        reveal_strlit("1");
        reveal_strlit("2");
        reveal_strlit("3");
        reveal_strlit("4");
        reveal_strlit("5");
        reveal_strlit("6");
        reveal_strlit("7");
        reveal_strlit("8");
        reveal_strlit("9");
        reveal_strlit("a");
        reveal_strlit("b");
        reveal_strlit("c");
        reveal_strlit("d");
        reveal_strlit("e");
        reveal_strlit("f");
    }
    let s: &'static str = if d == 0 {
        "0"
    } else if d == 1 {
        "1"
    } else if d == 2 {
        "2"
    } else if d == 3 {
        "3"
    } else if d == 4 {
        "4"
    } else if d == 5 {
        "5"
    } else if d == 6 {
        "6"
    } else if d == 7 {
        "7"
    } else if d == 8 {
        "8"
    } else if d == 9 {
        "9"
    } else if d == 10 {
        "a"
    } else if d == 11 {
        "b"
    } else if d == 12 {
        "c"
    } else if d == 13 {
        "d"
    } else if d == 14 {
        "e"
    } else {
        "f"
    };
    assert(s@ =~= seq![hex_digit(d as nat)]);
    s
}

/// Writes bytes in lower-case hexadecimal.
pub fn to_hex(bytes: &[u8]) -> (text: String)
    ensures
        text@ == hex_text(bytes@),
{
    let mut text = String::new();
    let mut i: usize = 0;
    while i < bytes.len()
        invariant
            i <= bytes@.len(),
            text@ == hex_text(bytes@.take(i as int)),
        decreases bytes@.len() - i,
    {
        let byte: u8 = bytes[i];
        let ghost before = text@;
        text.append(hex_digit_str(byte / 16));
        text.append(hex_digit_str(byte % 16));
        assert(text@ =~= hex_text(bytes@.take(i + 1))) by {
            assert(text@ == before + seq![hex_digit((byte / 16) as nat)] + seq![
                hex_digit((byte % 16) as nat),
            ]);
            assert(before.len() == 2 * i);
        }
        i = i + 1;
    }
    assert(bytes@.take(i as int) =~= bytes@);
    text
}

} // verus!
