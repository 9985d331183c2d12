//! The content store: each open document's text, compressed, with its
//! checksum.
use vstd::prelude::*;
use vstd::utf8::{decode_utf8, encode_utf8, valid_utf8};

verus! {

#[verifier::external_type_specification]
#[verifier::external_body]
pub struct ExDecompressError(lz4_flex::block::DecompressError);

#[verifier::external_type_specification]
#[verifier::external_body]
pub struct ExFromUtf8Error(std::string::FromUtf8Error);

/// What `lz4_flex::compress_prepend_size` makes of `b`.
pub uninterp spec fn lz4_block(b: Seq<u8>) -> Seq<u8>;

/// Relies on `lz4_flex::compress_prepend_size`: the LZ4 block of the input
/// behind its length, a function of the input alone.
#[verifier::external_body]
fn compress(b: &[u8]) -> (r: Vec<u8>)
    ensures
        r@ == lz4_block(b@),
{
    lz4_flex::compress_prepend_size(b)
}

/// What `lz4_flex::decompress_size_prepended` gives for `b`, none when it
/// fails.
pub uninterp spec fn lz4_unblock(b: Seq<u8>) -> Option<Seq<u8>>;

/// Relies on `lz4_flex::decompress_size_prepended`: a function of the input
/// alone, and it gives back the input
/// of `compress_prepend_size`, whose length it reads from the first four
/// bytes (so for inputs of fewer than 2^32 bytes).
#[verifier::external_body]
fn decompress(b: &[u8]) -> (r: Result<Vec<u8>, lz4_flex::block::DecompressError>)
    ensures
        match r {
            Ok(d) => lz4_unblock(b@) == Some(d@),
            Err(_) => lz4_unblock(b@) is None,
        },
        forall|x: Seq<u8>|
            x.len() <= u32::MAX && b@ == #[trigger] lz4_block(x) ==> r is Ok && r->Ok_0@ == x,
{
    lz4_flex::decompress_size_prepended(b)
}

/// Relies on `String::from_utf8`: success exactly on valid UTF-8, and then
/// the decoded characters.
#[verifier::external_body]
fn utf8_text(b: Vec<u8>) -> (r: Result<String, std::string::FromUtf8Error>)
    ensures
        r is Ok == valid_utf8(b@),
        r matches Ok(s) ==> s@ == decode_utf8(b@),
{
    String::from_utf8(b)
}

/// The lowercase hexadecimal SHA-256 digest of `b`.
pub uninterp spec fn sha256_hex(b: Seq<u8>) -> Seq<char>;

/// Relies on `sha2::Sha256::digest`, written in lowercase hexadecimal: a
/// function of the input alone, two digits for each of the 32 bytes.
#[verifier::external_body]
fn digest_hex(b: &[u8]) -> (r: String)
    ensures
        r@ == sha256_hex(b@),
        r@.len() == 64,
{
    format!("{:x}", <sha2::Sha256 as sha2::Digest>::digest(b))
}

/// Why a stored document could not be read back.
#[derive(Clone, Copy, Debug, PartialEq, Eq, Structural)]
pub enum DecodeError {
    /// The compressed bytes are not an LZ4 block.
    Corrupt,
    /// The bytes are not UTF-8 text.
    NotText,
}

/// A document's text as stored: compressed, with its byte length and
/// checksum.
#[derive(Debug)]
pub struct Document {
    pub compressed_data: Vec<u8>,
    pub original_size: usize,
    pub checksum: String,
}

pub struct DocumentView {
    pub compressed_data: Seq<u8>,
    pub original_size: nat,
    pub checksum: Seq<char>,
}

impl View for Document {
    type V = DocumentView;

    open spec fn view(&self) -> DocumentView {
        DocumentView {
            compressed_data: self.compressed_data@,
            original_size: self.original_size as nat,
            checksum: self.checksum@,
        }
    }
}

/// The checksum of text `t`: the SHA-256 digest of its UTF-8 bytes.
pub open spec fn checksum_of(t: Seq<char>) -> Seq<char> {
    sha256_hex(encode_utf8(t))
}

/// The stored form of text `t`.
pub open spec fn document_of(t: Seq<char>) -> DocumentView {
    DocumentView {
        compressed_data: lz4_block(encode_utf8(t)),
        original_size: encode_utf8(t).len(),
        checksum: checksum_of(t),
    }
}

/// The checksum of `content`.
pub fn checksum(content: &str) -> (r: String)
    ensures
        r@ == checksum_of(content@),
        r@.len() == 64,
{
    digest_hex(content.as_bytes())
}

/// Compresses `content` and computes its checksum.
pub fn compress_document(content: &str) -> (r: Document)
    ensures
        r@ == document_of(content@),
        r.checksum@.len() == 64,
{
    let bytes = content.as_bytes();
    Document {
        compressed_data: compress(bytes),
        original_size: bytes.len(),
        checksum: digest_hex(bytes),
    }
}

/// The text that `doc` holds: `Corrupt` when its bytes do not decompress,
/// `NotText` when what they decompress to is not UTF-8. A document made by
/// `compress_document` from text of fewer than 2^32 bytes always reads
/// back.
pub fn decompress_document(doc: &Document) -> (r: Result<String, DecodeError>)
    ensures
        match lz4_unblock(doc@.compressed_data) {
            None => r == Err::<String, DecodeError>(DecodeError::Corrupt),
            Some(d) => if valid_utf8(d) {
                r is Ok && r->Ok_0@ == decode_utf8(d)
            } else {
                r == Err::<String, DecodeError>(DecodeError::NotText)
            },
        },
        forall|t: Seq<char>|
            encode_utf8(t).len() <= u32::MAX && doc@.compressed_data == #[trigger] lz4_block(
                encode_utf8(t),
            ) ==> r is Ok && r->Ok_0@ == t,
{
    let bytes = match decompress(doc.compressed_data.as_slice()) {
        Ok(b) => b,
        Err(_) => return Err(DecodeError::Corrupt),
    };
    let ghost got = bytes@;
    let r = match utf8_text(bytes) {
        Ok(s) => Ok(s),
        Err(_) => Err(DecodeError::NotText),
    };
    assert forall|t: Seq<char>|
        encode_utf8(t).len() <= u32::MAX && doc@.compressed_data == #[trigger] lz4_block(
            encode_utf8(t),
        ) implies r is Ok && r->Ok_0@ == t by {
        assert(got == encode_utf8(t));
        vstd::utf8::encode_utf8_valid_utf8(t);
        vstd::utf8::encode_utf8_decode_utf8(t);
    }
    r
}

/// The checksum depends on the text alone: equal texts get equal
/// checksums and equal stored forms.
pub proof fn lemma_checksum_stable(a: Seq<char>, b: Seq<char>)
    requires
        a == b,
    ensures
        checksum_of(a) == checksum_of(b),
        document_of(a) == document_of(b),
{
}

} // verus!
