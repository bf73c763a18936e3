//! Base64 transform. The alphabets and the quartet arithmetic are the
//! outside crate's business; the engine names their results and keeps
//! the option handling — alphabet and padding selection — verified.

use vstd::prelude::*;

use crate::CodecMode;
use crate::bytes::byte_name;
use crate::codec_trait::{Codec, CodecUsage};
use crate::errors::{CodecError, ErrModel};
use crate::filestore::FileStore;
use crate::options::Options;
use crate::registry::CodecMetaInfo;
use vstd::string::StringExecFns;

verus! {

pub const N_LOWER_U: u8 = 117;

pub const N_LOWER_P: u8 = 112;

/// What the base64 engine emits for a given alphabet (`url`), padding
/// choice and input; a function of those alone.
pub uninterp spec fn base64_encode_of(url: bool, pad: bool, data: Seq<u8>) -> Seq<u8>;

/// What the base64 engine accepts and yields when decoding; `None`
/// where it rejects the input.
pub uninterp spec fn base64_decode_of(url: bool, pad: bool, data: Seq<u8>) -> Option<Seq<u8>>;

/// Relies on `base64::engine::Engine::encode` with the
/// `general_purpose::STANDARD` engine: the output depends only on the
/// input bytes, is empty exactly for empty input, and decoding it with
/// the same engine gives the input back — the documented pairing of
/// the engine's encode and decode.
#[verifier::external_body]
fn b64_encode_std(data: &[u8]) -> (r: Vec<u8>)
    ensures
        r@ == base64_encode_of(false, true, data@),
        data@.len() == 0 ==> r@.len() == 0,
        base64_decode_of(false, true, r@) == Some(data@),
{
    base64::Engine::encode(&base64::engine::general_purpose::STANDARD, data).into_bytes()
}

/// Relies on `base64::engine::Engine::encode` with
/// `general_purpose::STANDARD_NO_PAD`.
#[verifier::external_body]
fn b64_encode_std_nopad(data: &[u8]) -> (r: Vec<u8>)
    ensures
        r@ == base64_encode_of(false, false, data@),
        data@.len() == 0 ==> r@.len() == 0,
        base64_decode_of(false, false, r@) == Some(data@),
{
    base64::Engine::encode(&base64::engine::general_purpose::STANDARD_NO_PAD, data).into_bytes()
}

/// Relies on `base64::engine::Engine::encode` with
/// `general_purpose::URL_SAFE`.
#[verifier::external_body]
fn b64_encode_url(data: &[u8]) -> (r: Vec<u8>)
    ensures
        r@ == base64_encode_of(true, true, data@),
        data@.len() == 0 ==> r@.len() == 0,
        base64_decode_of(true, true, r@) == Some(data@),
{
    base64::Engine::encode(&base64::engine::general_purpose::URL_SAFE, data).into_bytes()
}

/// Relies on `base64::engine::Engine::encode` with
/// `general_purpose::URL_SAFE_NO_PAD`.
#[verifier::external_body]
fn b64_encode_url_nopad(data: &[u8]) -> (r: Vec<u8>)
    ensures
        r@ == base64_encode_of(true, false, data@),
        data@.len() == 0 ==> r@.len() == 0,
        base64_decode_of(true, false, r@) == Some(data@),
{
    base64::Engine::encode(&base64::engine::general_purpose::URL_SAFE_NO_PAD, data).into_bytes()
}

/// Relies on `base64::engine::Engine::decode` with
/// `general_purpose::STANDARD`: deterministic in the input, `Err` where
/// the engine rejects it.
#[verifier::external_body]
fn b64_decode_std(data: &[u8]) -> (r: Option<Vec<u8>>)
    ensures
        match r {
            Some(v) => base64_decode_of(false, true, data@) == Some(v@),
            None => base64_decode_of(false, true, data@) is None,
        },
{
    base64::Engine::decode(&base64::engine::general_purpose::STANDARD, data).ok()
}

/// Relies on `base64::engine::Engine::decode` with
/// `general_purpose::STANDARD_NO_PAD`.
#[verifier::external_body]
fn b64_decode_std_nopad(data: &[u8]) -> (r: Option<Vec<u8>>)
    ensures
        match r {
            Some(v) => base64_decode_of(false, false, data@) == Some(v@),
            None => base64_decode_of(false, false, data@) is None,
        },
{
    base64::Engine::decode(&base64::engine::general_purpose::STANDARD_NO_PAD, data).ok()
}

/// Relies on `base64::engine::Engine::decode` with
/// `general_purpose::URL_SAFE`.
#[verifier::external_body]
fn b64_decode_url(data: &[u8]) -> (r: Option<Vec<u8>>)
    ensures
        match r {
            Some(v) => base64_decode_of(true, true, data@) == Some(v@),
            None => base64_decode_of(true, true, data@) is None,
        },
{
    base64::Engine::decode(&base64::engine::general_purpose::URL_SAFE, data).ok()
}

/// Relies on `base64::engine::Engine::decode` with
/// `general_purpose::URL_SAFE_NO_PAD`.
#[verifier::external_body]
fn b64_decode_url_nopad(data: &[u8]) -> (r: Option<Vec<u8>>)
    ensures
        match r {
            Some(v) => base64_decode_of(true, false, data@) == Some(v@),
            None => base64_decode_of(true, false, data@) is None,
        },
{
    base64::Engine::decode(&base64::engine::general_purpose::URL_SAFE_NO_PAD, data).ok()
}

/// Base64 transform: `-u` picks the URL-safe alphabet, `-p` drops
/// padding.
pub struct Base64Codec;

impl Codec for Base64Codec {
    open spec fn spec_run(
        &self,
        input: Seq<u8>,
        mode: CodecMode,
        opts: Map<Seq<u8>, Option<Seq<u8>>>,
        reg: Seq<(Seq<u8>, Option<Seq<char>>)>,
        store: Map<Seq<u8>, Seq<u8>>,
    ) -> Result<(Seq<u8>, Map<Seq<u8>, Seq<u8>>), ErrModel> {
        let url = opts.contains_key(seq![N_LOWER_U]);
        let pad = !opts.contains_key(seq![N_LOWER_P]);
        match mode {
            CodecMode::Encoding => Ok((base64_encode_of(url, pad, input), store)),
            CodecMode::Decoding => match base64_decode_of(url, pad, input) {
                Some(v) => Ok((v, store)),
                None => Err(ErrModel::Transform(input)),
            },
        }
    }

    fn run_codec(
        &self,
        input: &Vec<u8>,
        mode: CodecMode,
        options: &Options,
        info: &CodecMetaInfo,
        store: &mut FileStore,
    ) -> (r: Result<Vec<u8>, CodecError>)
        ensures
            mode is Encoding ==> (r matches Ok(v) ==> base64_decode_of(
                options@.contains_key(seq![N_LOWER_U]),
                !options@.contains_key(seq![N_LOWER_P]),
                v@,
            ) == Some(input@)),
    {
        let u_name = byte_name(N_LOWER_U);
        let p_name = byte_name(N_LOWER_P);
        let url = options.get_switch(u_name.as_slice());
        let pad = !options.get_switch(p_name.as_slice());
        match mode {
            CodecMode::Encoding => {
                if url {
                    if pad {
                        Ok(b64_encode_url(input.as_slice()))
                    } else {
                        Ok(b64_encode_url_nopad(input.as_slice()))
                    }
                } else {
                    if pad {
                        Ok(b64_encode_std(input.as_slice()))
                    } else {
                        Ok(b64_encode_std_nopad(input.as_slice()))
                    }
                }
            },
            CodecMode::Decoding => {
                let d = if url {
                    if pad {
                        b64_decode_url(input.as_slice())
                    } else {
                        b64_decode_url_nopad(input.as_slice())
                    }
                } else {
                    if pad {
                        b64_decode_std(input.as_slice())
                    } else {
                        b64_decode_std_nopad(input.as_slice())
                    }
                };
                match d {
                    Some(v) => Ok(v),
                    None => Err(
                        CodecError::Transform(crate::bytes::copy_bytes(input.as_slice())),
                    ),
                }
            },
        }
    }
}

impl CodecUsage for Base64Codec {
    open spec fn spec_usage(&self) -> Seq<char> {
        "    -u: use url base64 instead\n"@
    }

    fn usage(&self) -> (r: String) {
        String::from_str("    -u: use url base64 instead\n")
    }
}

} // verus!
