//! The tokens in confirm and unsubscribe links.
use rand::RngCore;
use vstd::prelude::*;
use vstd::string::*;

use crate::text;

verus! {

/// The small digit of hexadecimal notation for a number below sixteen.
pub open spec fn hex_char(n: int) -> char {
    if n < 10 {
        (48 + n) as char
    } else {
        (87 + n) as char
    }
}

/// Bytes in hexadecimal notation: two small digits for each byte, the high half first.
pub open spec fn hex_text(data: Seq<u8>) -> Seq<char> {
    Seq::new(
        2 * data.len(),
        |i: int|
            hex_char(
                if i % 2 == 0 {
                    data[i / 2] as int / 16
                } else {
                    data[i / 2] as int % 16
                },
            ),
    )
}

/// `hex::encode` writes each byte as two small hexadecimal digits, the high half first.
#[verifier::external_body]
fn hex_encode(data: &[u8]) -> (r: String)
    ensures
        r@ == hex_text(data@),
{
    hex::encode(data)
}

/// Bytes out of the generator of `rand::thread_rng`, by `fill_bytes`. They are random: nothing is
/// said of them.
#[verifier::external_body]
fn random_bytes() -> (r: [u8; 32]) {
    let mut b = [0u8; 32];
    rand::thread_rng().fill_bytes(&mut b);
    b
}

/// A text that can be a token: one to 128 hexadecimal digits.
pub open spec fn is_token(s: Seq<char>) -> bool {
    0 < s.len() <= 128 && forall|i: int| 0 <= i < s.len() ==> text::hex_digit(#[trigger] s[i])
}

/// The token that some bytes make is one that links accept, and there are two digits for each byte.
pub proof fn hex_text_is_token(data: Seq<u8>)
    requires
        0 < data.len() <= 64,
    ensures
        is_token(hex_text(data)),
        hex_text(data).len() == 2 * data.len(),
{
    let s = hex_text(data);
    assert forall|i: int| 0 <= i < s.len() implies text::hex_digit(#[trigger] s[i]) by {
        let b = data[i / 2] as int;
        assert(0 <= b / 16 < 16 && 0 <= b % 16 < 16);
    }
}

/// Different bytes make different tokens.
pub proof fn hex_text_tells_apart(a: Seq<u8>, b: Seq<u8>)
    requires
        hex_text(a) == hex_text(b),
    ensures
        a == b,
{
    assert(hex_text(a).len() == 2 * a.len());
    assert(hex_text(b).len() == 2 * b.len());
    assert forall|k: int| 0 <= k < a.len() implies a[k] == b[k] by {
        let x = a[k] as int;
        let y = b[k] as int;
        assert(hex_text(a)[2 * k] == hex_text(b)[2 * k]);
        assert(hex_text(a)[2 * k + 1] == hex_text(b)[2 * k + 1]);
        assert((2 * k) / 2 == k && (2 * k + 1) / 2 == k);
        assert((2 * k) % 2 == 0 && (2 * k + 1) % 2 == 1);
        assert(hex_text(a)[2 * k] == hex_char(x / 16));
        assert(hex_text(b)[2 * k] == hex_char(y / 16));
        assert(hex_text(a)[2 * k + 1] == hex_char(x % 16));
        assert(hex_text(b)[2 * k + 1] == hex_char(y % 16));
        assert(x / 16 == y / 16);
        assert(x % 16 == y % 16);
    }
    assert(a =~= b);
}

/// The number that a small hexadecimal digit stands for.
pub open spec fn digit_value(c: char) -> int {
    if '0' <= c <= '9' {
        c as int - '0' as int
    } else {
        c as int - 'a' as int + 10
    }
}

/// Each byte is found again in two small digits of its token.
pub proof fn bytes_are_found_again(data: Seq<u8>, k: int)
    requires
        0 <= k < data.len(),
    ensures
        ({
            let high = hex_text(data)[2 * k];
            let low = hex_text(data)[2 * k + 1];
            &&& 16 * digit_value(high) + digit_value(low) == data[k]
            &&& '0' <= high <= '9' || 'a' <= high <= 'f'
            &&& '0' <= low <= '9' || 'a' <= low <= 'f'
            &&& hex_text(data).len() == 2 * data.len()
        }),
{
    let b = data[k] as int;
    assert((2 * k) / 2 == k && (2 * k + 1) / 2 == k);
    assert((2 * k) % 2 == 0 && (2 * k + 1) % 2 == 1);
    assert(hex_text(data)[2 * k] == hex_char(b / 16));
    assert(hex_text(data)[2 * k + 1] == hex_char(b % 16));
    assert(0 <= b / 16 < 16 && 0 <= b % 16 < 16);
    assert(16 * (b / 16) + b % 16 == b);
}

/// A link is followed up exactly where its token is 1 to 128 characters long, each of them a
/// hexadecimal digit.
pub proof fn which_tokens_are_followed_up(s: Seq<char>)
    ensures
        is_token(s) <==> 1 <= s.len() && s.len() <= 128 && forall|i: int|
            0 <= i < s.len() ==> {
                ||| '0' <= #[trigger] s[i] <= '9'
                ||| 'a' <= s[i] <= 'f'
                ||| 'A' <= s[i] <= 'F'
            },
{
    if is_token(s) {
        assert forall|i: int| 0 <= i < s.len() implies {
            ||| '0' <= #[trigger] s[i] <= '9'
            ||| 'a' <= s[i] <= 'f'
            ||| 'A' <= s[i] <= 'F'
        } by {
            assert(text::hex_digit(s[i]));
        }
    } else if 1 <= s.len() <= 128 {
        let i = choose|i: int| 0 <= i < s.len() && !text::hex_digit(#[trigger] s[i]);
        assert(!text::hex_digit(s[i]));
    }
}

/// The token that 32 bytes make.
pub fn encode_token(bytes: &[u8; 32]) -> (r: String)
    ensures
        r@ == hex_text(bytes@),
        r@.len() == 64,
        is_token(r@),
{
    proof {
        hex_text_is_token(bytes@);
    }
    hex_encode(bytes.as_slice())
}

/// A new token, of 32 random bytes.
pub fn token() -> (r: String)
    ensures
        r@.len() == 64,
        is_token(r@),
        exists|bytes: Seq<u8>| bytes.len() == 32 && r@ == #[trigger] hex_text(bytes),
{
    let b: [u8; 32] = random_bytes();
    encode_token(&b)
}

/// Whether a text can be a token.
pub fn hexish(s: &str) -> (r: bool)
    ensures
        r == is_token(s@),
{
    let c: Vec<char> = text::to_chars(s);
    if c.len() == 0 || c.len() > 128 {
        return false;
    }
    let mut i: usize = 0;
    while i < c.len()
        invariant
            i <= c@.len(),
            c@ == s@,
            forall|j: int| 0 <= j < i ==> text::hex_digit(#[trigger] c@[j]),
        decreases c@.len() - i,
    {
        if !text::is_hex_digit(c[i]) {
            assert(!text::hex_digit(s@[i as int]));
            return false;
        }
        i += 1;
    }
    true
}

} // verus!
