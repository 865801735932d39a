//! The identity of a record: a digest of the content of the file that the
//! record describes, as printable text.

use base64ct::Encoding;
use md5::Digest;
use vstd::prelude::*;

verus! {

/// The MD5 digest of a sequence of bytes.
pub uninterp spec fn md5_of(bytes: Seq<u8>) -> Seq<u8>;

/// The standard, padded Base64 text of a sequence of bytes.
pub uninterp spec fn base64_of(bytes: Seq<u8>) -> Seq<char>;

/// The identity of content: the Base64 text of its MD5 digest. It depends on
/// the bytes alone, not on where they were found.
pub open spec fn identity_text(content: Seq<u8>) -> Seq<char> {
    base64_of(md5_of(content))
}

/// `md5::Digest::digest` for `md5::Md5`: the MD5 digest of exactly these
/// bytes, which has 16 bytes.
#[verifier::external_body]
fn md5_digest(bytes: &[u8]) -> (r: Vec<u8>)
    ensures
        r@ == md5_of(bytes@),
        r@.len() == 16,
{
    md5::Md5::digest(bytes).to_vec()
}

/// `base64ct::Base64::encode_string`: the padded Base64 text of `bytes`. The
/// call panics when four times the input's length does not fit in `usize`,
/// so such an input is left out.
#[verifier::external_body]
fn base64_text(bytes: &[u8]) -> (r: String)
    requires
        bytes@.len() * 4 <= usize::MAX,
    ensures
        r@ == base64_of(bytes@),
{
    base64ct::Base64::encode_string(bytes)
}

/// The identity of a file's content. Files with the same bytes have the same
/// identity wherever they lie, and a change of any byte, including one in
/// embedded metadata, gives another identity.
pub fn identity(content: &[u8]) -> (r: String)
    ensures
        r@ == identity_text(content@),
{
    let digest = md5_digest(content);
    base64_text(digest.as_slice())
}

/// Content addressing: equal content has equal identity.
pub proof fn lemma_identity_by_content(a: Seq<u8>, b: Seq<u8>)
    requires
        a == b,
    ensures
        identity_text(a) == identity_text(b),
{
}

} // verus!
