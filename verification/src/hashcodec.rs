//! Digest transforms: md5, sha256 and sm3. The digest arithmetic is
//! the outside crates' business; its results are named, and the engine
//! keeps the direction handling verified. A digest cannot be decoded.

use vstd::prelude::*;

use crate::CodecMode;
use crate::bytes::copy_bytes;
use crate::codec_trait::{Codec, CodecUsage};
use crate::errors::{CodecError, ErrModel};
use crate::filestore::FileStore;
use crate::options::Options;
use crate::registry::CodecMetaInfo;
use vstd::string::{StringSliceAdditionalSpecFns, StringExecFns};

verus! {

/// The md5 digest of a byte string: a function of the bytes alone.
pub uninterp spec fn md5_of(data: Seq<u8>) -> Seq<u8>;

/// The sha256 digest of a byte string.
pub uninterp spec fn sha256_of(data: Seq<u8>) -> Seq<u8>;

/// The sm3 digest of a byte string.
pub uninterp spec fn sm3_of(data: Seq<u8>) -> Seq<u8>;

/// Relies on `digest::Digest::digest` for `md5::Md5`: a 16-byte digest
/// depending on the input alone.
#[verifier::external_body]
fn md5_digest(data: &[u8]) -> (r: Vec<u8>)
    ensures
        r@ == md5_of(data@),
        r@.len() == 16,
{
    <md5::Md5 as digest::Digest>::digest(data).to_vec()
}

/// Relies on `digest::Digest::digest` for `sha2::Sha256`: a 32-byte
/// digest depending on the input alone.
#[verifier::external_body]
fn sha256_digest(data: &[u8]) -> (r: Vec<u8>)
    ensures
        r@ == sha256_of(data@),
        r@.len() == 32,
{
    <sha2::Sha256 as digest::Digest>::digest(data).to_vec()
}

/// Relies on `digest::Digest::digest` for `sm3::Sm3`: a 32-byte digest
/// depending on the input alone.
#[verifier::external_body]
fn sm3_digest(data: &[u8]) -> (r: Vec<u8>)
    ensures
        r@ == sm3_of(data@),
        r@.len() == 32,
{
    <sm3::Sm3 as digest::Digest>::digest(data).to_vec()
}

pub enum HashType {
    Md5,
    Sha256,
    Sm3,
}

/// One digest stage; which digest it takes is fixed at registration.
pub struct HashCodec {
    pub hash_type: HashType,
}

impl HashCodec {
    pub fn new_md5() -> (r: HashCodec)
        ensures
            r.hash_type is Md5,
    {
        HashCodec { hash_type: HashType::Md5 }
    }

    pub fn new_sha256() -> (r: HashCodec)
        ensures
            r.hash_type is Sha256,
    {
        HashCodec { hash_type: HashType::Sha256 }
    }

    pub fn new_sm3() -> (r: HashCodec)
        ensures
            r.hash_type is Sm3,
    {
        HashCodec { hash_type: HashType::Sm3 }
    }
}

impl HashCodec {
    /// How many bytes this stage's digest holds: sixteen for md5,
    /// thirty-two for sha256 and sm3.
    pub open spec fn digest_len(&self) -> nat {
        match self.hash_type {
            HashType::Md5 => 16,
            HashType::Sha256 => 32,
            HashType::Sm3 => 32,
        }
    }
}

impl Codec for HashCodec {
    open spec fn spec_run(
        &self,
        input: Seq<u8>,
        mode: CodecMode,
        opts: Map<Seq<u8>, Option<Seq<u8>>>,
        reg: Seq<(Seq<u8>, Option<Seq<char>>)>,
        store: Map<Seq<u8>, Seq<u8>>,
    ) -> Result<(Seq<u8>, Map<Seq<u8>, Seq<u8>>), ErrModel> {
        match mode {
            CodecMode::Encoding => match self.hash_type {
                HashType::Md5 => Ok((md5_of(input), store)),
                HashType::Sha256 => Ok((sha256_of(input), store)),
                HashType::Sm3 => Ok((sm3_of(input), store)),
            },
            CodecMode::Decoding => Err(ErrModel::Transform("hash: cannot decode".spec_bytes())),
        }
    }

    fn run_codec(
        &self,
        input: &Vec<u8>,
        mode: CodecMode,
        options: &Options,
        info: &CodecMetaInfo,
        store: &mut FileStore,
    ) -> (r: Result<Vec<u8>, CodecError>)
        ensures
            r matches Ok(v) ==> v@.len() == self.digest_len(),
    {
        match mode {
            CodecMode::Encoding => match self.hash_type {
                HashType::Md5 => Ok(md5_digest(input.as_slice())),
                HashType::Sha256 => Ok(sha256_digest(input.as_slice())),
                HashType::Sm3 => Ok(sm3_digest(input.as_slice())),
            },
            CodecMode::Decoding => Err(
                CodecError::Transform(copy_bytes("hash: cannot decode".as_bytes())),
            ),
        }
    }
}

impl CodecUsage for HashCodec {
    open spec fn spec_usage(&self) -> Seq<char> {
        "    calculate hash digest\n"@
    }

    fn usage(&self) -> (r: String) {
        String::from_str("    calculate hash digest\n")
    }
}

} // verus!
