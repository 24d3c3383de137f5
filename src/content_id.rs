//! Content identifiers: a short hexadecimal prefix of the SHA-256 digest of
//! the exact bytes received.
use vstd::prelude::*;
use vstd::string::StrSliceExecFns;
use vstd::string::StringExecFns;
use sha2::Digest;

verus! {

/// Lower-case hexadecimal digits, by value.
pub open spec fn hex_digits() -> Seq<char> {
    seq!['0', '1', '2', '3', '4', '5', '6', '7', '8', '9', 'a', 'b', 'c', 'd', 'e', 'f']
}

/// The two hexadecimal digits of a byte, high nibble first.
pub open spec fn byte_hex(b: u8) -> Seq<char> {
    seq![hex_digits()[(b / 16) as int], hex_digits()[(b % 16) as int]]
}

/// Hexadecimal rendering of a byte sequence, two digits per byte.
pub open spec fn hex_of(s: Seq<u8>) -> Seq<char>
    decreases s.len(),
{
    if s.len() == 0 {
        Seq::empty()
    } else {
        hex_of(s.drop_last()) + byte_hex(s.last())
    }
}

/// Number of digest bytes whose hexadecimal digits form an identifier.
pub const ID_BYTES: usize = 3;

/// The content identifier of a digest: its first six hexadecimal digits.
pub open spec fn identifier_of(digest: Seq<u8>) -> Seq<char> {
    hex_of(digest.take(ID_BYTES as int))
}

proof fn lemma_hex_of_shape(s: Seq<u8>)
    ensures
        hex_of(s).len() == 2 * s.len(),
        forall|i: int| 0 <= i < hex_of(s).len() ==> hex_of(s)[i] != '/' && hex_of(s)[i] != '.',
    decreases s.len(),
{
    if s.len() > 0 {
        lemma_hex_of_shape(s.drop_last());
        let h = hex_of(s.drop_last());
        let b = byte_hex(s.last());
        assert forall|i: int| 0 <= i < hex_of(s).len() implies hex_of(s)[i] != '/' && hex_of(s)[
            i
        ] != '.' by {
            if i >= h.len() {
                assert(hex_of(s)[i] == b[i - h.len()]);
            } else {
                assert(hex_of(s)[i] == h[i]);
            }
        }
    }
}

/// An identifier is six characters, none of them `/` or `.`.
pub proof fn lemma_identifier_shape(digest: Seq<u8>)
    requires
        digest.len() >= ID_BYTES,
    ensures
        identifier_of(digest).len() == 2 * ID_BYTES,
        forall|i: int|
            0 <= i < identifier_of(digest).len() ==> identifier_of(digest)[i] != '/'
                && identifier_of(digest)[i] != '.',
{
    lemma_hex_of_shape(digest.take(ID_BYTES as int));
}

fn hex_digit(n: u8) -> (r: &'static str)
    requires
        n < 16,
    ensures
        r@ == seq![hex_digits()[n as int]],
{
    proof {
        reveal_strlit("0123456789abcdef");
    }
    let r = "0123456789abcdef".substring_char(n as usize, n as usize + 1);
    assert(r@ =~= seq![hex_digits()[n as int]]);
    r
}

/// Renders the first six hexadecimal digits of `digest`.
pub fn content_identifier(digest: &Vec<u8>) -> (r: String)
    requires
        digest@.len() >= ID_BYTES,
    ensures
        r@ == identifier_of(digest@),
{
    let mut r = String::new();
    let mut i: usize = 0;
    while i < ID_BYTES
        invariant
            i <= ID_BYTES <= digest@.len(),
            r@ == hex_of(digest@.take(i as int)),
        decreases ID_BYTES - i,
    {
        let b = digest[i];
        r.append(hex_digit(b / 16));
        r.append(hex_digit(b % 16));
        assert(digest@.take(i as int + 1).drop_last() =~= digest@.take(i as int));
        assert(r@ =~= hex_of(digest@.take(i as int + 1)));
        i = i + 1;
    }
    r
}

/// The SHA-256 digest of a byte sequence.
pub uninterp spec fn sha256_of(data: Seq<u8>) -> Seq<u8>;

/// Relies on sha2's `Sha256::digest`: the 32-byte SHA-256 digest of exactly
/// the bytes given.
#[verifier::external_body]
pub(crate) fn sha256(data: &[u8]) -> (r: Vec<u8>)
    ensures
        r@ == sha256_of(data@),
        r@.len() == 32,
{
    sha2::Sha256::digest(data).to_vec()
}

/// The extension that signature sniffing assigns to a buffer, if any.
pub uninterp spec fn sniffed_extension(data: Seq<u8>) -> Option<Seq<char>>;

/// Leading bytes of a PNG image.
pub open spec fn png_magic(data: Seq<u8>) -> bool {
    &&& data.len() >= 4
    &&& data[0] == 0x89u8
    &&& data[1] == 0x50u8
    &&& data[2] == 0x4Eu8
    &&& data[3] == 0x47u8
}

/// The `BOOKMOBI` marker at offset 60 of an e-book, the one signature in the
/// table ahead of PNG that does not look at the first bytes.
pub open spec fn mobi_marker(data: Seq<u8>) -> bool {
    &&& data.len() > 67
    &&& data[60] == 0x42u8
    &&& data[61] == 0x4Fu8
    &&& data[62] == 0x4Fu8
    &&& data[63] == 0x4Bu8
    &&& data[64] == 0x4Du8
    &&& data[65] == 0x4Fu8
    &&& data[66] == 0x42u8
    &&& data[67] == 0x49u8
}

/// Relies on `infer::get` and `Type::extension`: the extension of the first
/// signature in infer's table that matches the buffer (every extension in
/// that table is a short non-empty word of letters and digits); bytes starting with
/// the PNG signature match PNG unless the e-book marker is present.
#[verifier::external_body]
pub(crate) fn sniff(data: &[u8]) -> (r: Option<String>)
    ensures
        r is Some <==> sniffed_extension(data@) is Some,
        r is Some ==> sniffed_extension(data@) == Some(r->0@),
        r is Some ==> r->0@.len() > 0,
        r is Some ==> forall|i: int| 0 <= i < r->0@.len() ==> r->0@[i] != '/',
        png_magic(data@) && !mobi_marker(data@) ==> r is Some && r->0@ == seq!['p', 'n', 'g'],
{
    infer::get(data).map(|t| t.extension().to_string())
}

} // verus!
