//! Links to the files of a pull request.

use vstd::prelude::*;

use crate::scope::PrInfo;
use crate::text::{concat2, decimal, u64_text};

verus! {

/// The SHA-256 digest of some bytes.
pub uninterp spec fn sha256_digest(bytes: Seq<u8>) -> Seq<u8>;

/// Calls `sha2::Sha256::digest`: the digest, of 32 bytes, which depends on the bytes alone.
#[verifier::external_body]
fn sha256(bytes: &[u8]) -> (r: Vec<u8>)
    ensures
        r@ == sha256_digest(bytes@),
        r@.len() == 32,
{
    <sha2::Sha256 as sha2::Digest>::digest(bytes).to_vec()
}

/// The hexadecimal digit of a number below 16, in lower case.
pub open spec fn hex_digit(n: int) -> char {
    if n < 10 {
        ('0' as int + n) as char
    } else {
        ('a' as int + (n - 10)) as char
    }
}

/// Bytes in hexadecimal, two digits for each.
pub open spec fn hex(bytes: Seq<u8>) -> Seq<char>
    decreases bytes.len(),
{
    if bytes.len() == 0 {
        seq![]
    } else {
        hex(bytes.drop_last()) + seq![
            hex_digit(bytes.last() as int / 16),
            hex_digit(bytes.last() as int % 16),
        ]
    }
}

fn hex_digit_of(n: u8) -> (r: char)
    requires
        n < 16,
    ensures
        r == hex_digit(n as int),
{
    if n < 10 {
        (48u8 + n) as char
    } else {
        (97u8 + (n - 10)) as char
    }
}

/// Bytes in hexadecimal, two digits for each.
pub fn hex_text(bytes: &Vec<u8>) -> (r: String)
    ensures
        r@ == hex(bytes@),
{
    let mut r = String::new();
    let mut i: usize = 0;
    assert(bytes@.take(0) == Seq::<u8>::empty());
    while i < bytes.len()
        invariant
            i <= bytes@.len(),
            r@ == hex(bytes@.take(i as int)),
        decreases bytes@.len() - i,
    {
        assert(bytes@.take(i + 1).drop_last() == bytes@.take(i as int));
        let ghost before = r@;
        r.push(hex_digit_of(bytes[i] / 16));
        r.push(hex_digit_of(bytes[i] % 16));
        assert(r@ == before + seq![
            hex_digit(bytes@[i as int] as int / 16),
            hex_digit(bytes@[i as int] as int % 16),
        ]);
        i += 1;
    }
    assert(bytes@.take(i as int) == bytes@);
    r
}

/// The anchor of a file in a pull request: the digest of its name.
pub fn generate_file_anchor(filename: &str) -> (r: String)
    ensures
        r@ == hex(sha256_digest(vstd::utf8::encode_utf8(filename@))),
{
    hex_text(&sha256(filename.as_bytes()))
}

/// The address of a file in a pull request.
pub fn file_url(pr: &PrInfo, filename: &str) -> (r: String)
    ensures
        r@ == "https://github.com/"@ + pr.repo_owner@ + "/"@ + pr.repo_name@ + "/pull/"@ + decimal(
            pr.number as nat,
        ) + "/files#diff-"@ + hex(sha256_digest(vstd::utf8::encode_utf8(filename@))),
        ("https://github.com/"@ + pr.repo_owner@ + "/"@ + pr.repo_name@).is_prefix_of(r@),
{
    proof {
        let start = "https://github.com/"@ + pr.repo_owner@ + "/"@ + pr.repo_name@;
        let end = "/pull/"@ + decimal(pr.number as nat) + "/files#diff-"@ + hex(
            sha256_digest(vstd::utf8::encode_utf8(filename@)),
        );
        assert(start + "/pull/"@ + decimal(pr.number as nat) + "/files#diff-"@ + hex(
            sha256_digest(vstd::utf8::encode_utf8(filename@)),
        ) =~= start + end);
        assert(start.is_prefix_of(start + end));
    }
    let mut r = concat2("https://github.com/", pr.repo_owner.as_str());
    r.append("/");
    r.append(pr.repo_name.as_str());
    r.append("/pull/");
    r.append(u64_text(pr.number).as_str());
    r.append("/files#diff-");
    r.append(generate_file_anchor(filename).as_str());
    r
}

/// A digest is written with twice as many digits as it has bytes.
pub proof fn hex_has_two_digits_for_each_byte(bytes: Seq<u8>)
    ensures
        hex(bytes).len() == 2 * bytes.len(),
    decreases bytes.len(),
{
    if bytes.len() > 0 {
        hex_has_two_digits_for_each_byte(bytes.drop_last());
    }
}

/// The value of a digit of a number to the base sixteen.
pub open spec fn digit_value(c: char) -> int {
    if '0' <= c <= '9' {
        c as int - '0' as int
    } else if 'a' <= c <= 'f' {
        c as int - 'a' as int + 10
    } else {
        -1
    }
}

/// The two digits at the place of a byte stand for it, the higher one first.
pub proof fn hex_digits_stand_for_the_bytes(bytes: Seq<u8>, i: int)
    requires
        0 <= i < bytes.len(),
    ensures
        hex(bytes).len() == 2 * bytes.len(),
        0 <= digit_value(hex(bytes)[2 * i]),
        0 <= digit_value(hex(bytes)[2 * i + 1]),
        16 * digit_value(hex(bytes)[2 * i]) + digit_value(hex(bytes)[2 * i + 1]) == bytes[i],
    decreases bytes.len(),
{
    hex_has_two_digits_for_each_byte(bytes);
    hex_has_two_digits_for_each_byte(bytes.drop_last());
    if i < bytes.len() - 1 {
        hex_digits_stand_for_the_bytes(bytes.drop_last(), i);
        assert(hex(bytes)[2 * i] == hex(bytes.drop_last())[2 * i]);
        assert(hex(bytes)[2 * i + 1] == hex(bytes.drop_last())[2 * i + 1]);
    } else {
        let n = bytes.last() as int;
        assert(hex(bytes)[2 * i] == hex_digit(n / 16));
        assert(hex(bytes)[2 * i + 1] == hex_digit(n % 16));
    }
}

} // verus!
