use vstd::prelude::*;
use vstd::string::*;
use crate::text::{texts, copy_texts};

verus! {

/// Lower-case hexadecimal digits, by value.
pub const HEX_DIGITS: &'static str = "0123456789abcdef";

/// The MD5 digest of the UTF-8 bytes of a text.
pub uninterp spec fn md5_of(input: Seq<char>) -> Seq<u8>;

/// Relies on md5::compute: the MD5 digest of the bytes given, which md5
/// holds as sixteen bytes (`Digest(pub [u8; 16])`).
#[verifier::external_body]
fn md5_digest(input: &str) -> (r: Vec<u8>)
    ensures
        r@ == md5_of(input@),
        r@.len() == 16,
{
    md5::compute(input.as_bytes()).0.to_vec()
}

/// The lower-case hexadecimal digit of a value below sixteen.
pub open spec fn hex_digit(d: int) -> char {
    HEX_DIGITS@[d]
}

/// Two lower-case hexadecimal digits per byte, most significant first.
pub open spec fn hex_of(bytes: Seq<u8>) -> Seq<char>
    decreases bytes.len(),
{
    if bytes.len() == 0 {
        Seq::empty()
    } else {
        let b = bytes.last();
        hex_of(bytes.drop_last()) + seq![hex_digit(b as int / 16), hex_digit(b as int % 16)]
    }
}

/// Lower-case hexadecimal text of `bytes`, two digits per byte.
pub fn hex_lower(bytes: &Vec<u8>) -> (r: String)
    ensures
        r@ == hex_of(bytes@),
{
    proof {
        reveal_strlit("0123456789abcdef");
    }
    let mut r = String::new();
    let mut i: usize = 0;
    while i < bytes.len()
        invariant
            i <= bytes@.len(),
            HEX_DIGITS@.len() == 16,
            r@ == hex_of(bytes@.take(i as int)),
        decreases bytes@.len() - i,
    {
        let b = bytes[i];
        let hi = (b / 16) as usize;
        let lo = (b % 16) as usize;
        r.append(HEX_DIGITS.substring_char(hi, hi + 1));
        r.append(HEX_DIGITS.substring_char(lo, lo + 1));
        proof {
            assert(bytes@.take(i as int + 1).drop_last() =~= bytes@.take(i as int));
            assert(HEX_DIGITS@.subrange(hi as int, hi + 1) =~= seq![hex_digit(hi as int)]);
            assert(HEX_DIGITS@.subrange(lo as int, lo + 1) =~= seq![hex_digit(lo as int)]);
            assert(r@ =~= hex_of(bytes@.take(i as int + 1)));
        }
        i = i + 1;
    }
    assert(bytes@.take(bytes@.len() as int) =~= bytes@);
    r
}

/// The MD5 digest of `input` as lower-case hexadecimal text.
pub fn generate_md5(input: &str) -> (r: String)
    ensures
        r@ == hex_of(md5_of(input@)),
{
    let digest = md5_digest(input);
    hex_lower(&digest)
}

/// Where a download from `url` is kept below `dir`: in a file named after
/// the MD5 digest of the address.
pub fn cache_path(dir: &Vec<String>, url: &str) -> (r: Vec<String>)
    ensures
        texts(r@) == texts(dir@).push(hex_of(md5_of(url@))),
{
    let name = generate_md5(url);
    let mut r = copy_texts(dir);
    r.push(name);
    proof {
        assert(texts(r@) =~= texts(dir@).push(hex_of(md5_of(url@))));
    }
    r
}

} // verus!
