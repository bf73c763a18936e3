//! Backslash-escaping of text. Escaping leans on the standard
//! library's character escaping; unescaping on the outside unescape
//! routine, retried on the longest prefix it accepts so that a partial
//! trailing escape waits for more input. Both directions read the
//! stream as UTF-8 and reject bytes that are not.

use vstd::prelude::*;

use crate::CodecMode;
use crate::adapters::{BytesToBytesDecoder, BytesToBytesEncoder, ChunkMapping, sp_drain};
use crate::bytes::{copy_bytes, utf8_to_str};
use crate::codec_trait::Codec;
use crate::errors::{CodecError, ErrModel};
use crate::filestore::FileStore;
use crate::options::Options;
use crate::registry::CodecMetaInfo;
use vstd::string::StrSliceExecFns;
use vstd::utf8::{decode_utf8, encode_utf8, valid_utf8};

verus! {

/// What the standard escaping yields for a character sequence: each
/// character's escape, in order; a function of the characters alone.
pub uninterp spec fn escape_default_of(s: Seq<char>) -> Seq<char>;

/// What the outside unescape yields for a quoted form of the
/// characters: the unescaped text, or the character position where an
/// escape is invalid; a function of the characters alone.
pub uninterp spec fn unescape_of(s: Seq<char>) -> Result<Seq<char>, int>;

/// Relies on `str::escape_default`: deterministic in the characters.
#[verifier::external_body]
fn escape_str(s: &str) -> (r: String)
    ensures
        r@ == escape_default_of(s@),
{
    format!("{}", s.escape_default())
}

/// Relies on `snailquote::unescape`, applied to the input behind an
/// opening double quote; an error reports the failing character
/// position in that quoted string, moved out of either error variant.
#[verifier::external_body]
fn unescape_quoted(s: &str) -> (r: Result<String, usize>)
    ensures
        match r {
            Ok(v) => unescape_of(s@) == Ok::<Seq<char>, int>(v@),
            Err(i) => unescape_of(s@) == Err::<Seq<char>, int>(i as int),
        },
{
    match snailquote::unescape(&format!("\"{}", s)) {
        Ok(v) => Ok(v),
        Err(snailquote::UnescapeError::InvalidEscape { index, .. }) => Err(index),
        Err(snailquote::UnescapeError::InvalidUnicode { index, .. }) => Err(index),
    }
}

/// The write-side escaping mapping: the carry must be valid UTF-8 and
/// escapes completely.
pub struct EscapeEncodeMapping;

impl ChunkMapping for EscapeEncodeMapping {
    open spec fn sp_map_ok(&self, carry: Seq<u8>) -> bool {
        valid_utf8(carry)
    }

    open spec fn sp_emit(&self, carry: Seq<u8>) -> Seq<u8> {
        encode_utf8(escape_default_of(decode_utf8(carry)))
    }

    open spec fn sp_remain(&self, carry: Seq<u8>) -> Seq<u8> {
        Seq::empty()
    }

    open spec fn sp_map_err(&self, carry: Seq<u8>) -> ErrModel {
        ErrModel::Transform(carry)
    }

    open spec fn sp_fin_ok(&self, carry: Seq<u8>) -> bool {
        true
    }

    open spec fn sp_fin(&self, carry: Seq<u8>) -> Option<Seq<u8>> {
        None
    }

    open spec fn sp_fin_err(&self, carry: Seq<u8>) -> ErrModel {
        ErrModel::StreamIntegrity
    }

    fn transform(&self, carry: &[u8]) -> (r: Result<(Vec<u8>, Vec<u8>), CodecError>) {
        let s = match utf8_to_str(carry) {
            Some(s) => s,
            None => {
                return Err(CodecError::Transform(copy_bytes(carry)));
            },
        };
        let escaped = escape_str(s);
        let out = escaped.as_str().as_bytes_vec();
        let rem: Vec<u8> = Vec::new();
        proof {
            assert(rem@ =~= Seq::<u8>::empty());
        }
        Ok((out, rem))
    }

    fn finalize_map(&self, carry: &[u8]) -> (r: Result<Option<Vec<u8>>, CodecError>) {
        Ok(None)
    }
}

/// Where the unescaping of a carry's characters stands: everything
/// unescapes, or the longest accepted prefix ends at the reported
/// position and the rest waits for more input.
pub open spec fn esc_dec_ok(chars: Seq<char>) -> bool {
    match unescape_of(chars) {
        Ok(_) => true,
        Err(i) => 1 <= i && i - 1 <= chars.len() && unescape_of(chars.take(i - 1)) is Ok,
    }
}

/// The read-side unescaping mapping.
pub struct EscapeDecodeMapping;

impl ChunkMapping for EscapeDecodeMapping {
    open spec fn sp_map_ok(&self, carry: Seq<u8>) -> bool {
        valid_utf8(carry) && esc_dec_ok(decode_utf8(carry))
    }

    open spec fn sp_emit(&self, carry: Seq<u8>) -> Seq<u8> {
        let chars = decode_utf8(carry);
        match unescape_of(chars) {
            Ok(v) => encode_utf8(v),
            Err(i) => match unescape_of(chars.take(i - 1)) {
                Ok(v) => encode_utf8(v),
                Err(_) => Seq::empty(),
            },
        }
    }

    open spec fn sp_remain(&self, carry: Seq<u8>) -> Seq<u8> {
        let chars = decode_utf8(carry);
        match unescape_of(chars) {
            Ok(_) => Seq::empty(),
            Err(i) => encode_utf8(chars.skip(i - 1)),
        }
    }

    open spec fn sp_map_err(&self, carry: Seq<u8>) -> ErrModel {
        ErrModel::Transform(carry)
    }

    open spec fn sp_fin_ok(&self, carry: Seq<u8>) -> bool {
        false
    }

    open spec fn sp_fin(&self, carry: Seq<u8>) -> Option<Seq<u8>> {
        None
    }

    open spec fn sp_fin_err(&self, carry: Seq<u8>) -> ErrModel {
        ErrModel::StreamIntegrity
    }

    fn transform(&self, carry: &[u8]) -> (r: Result<(Vec<u8>, Vec<u8>), CodecError>) {
        let s = match utf8_to_str(carry) {
            Some(s) => s,
            None => {
                return Err(CodecError::Transform(copy_bytes(carry)));
            },
        };
        match unescape_quoted(s) {
            Ok(v) => {
                let out = v.as_str().as_bytes_vec();
                let rem: Vec<u8> = Vec::new();
                proof {
                    assert(rem@ =~= Seq::<u8>::empty());
                }
                Ok((out, rem))
            },
            Err(index) => {
                if index < 1 {
                    return Err(CodecError::Transform(copy_bytes(carry)));
                }
                let ulen = s.unicode_len();
                if index - 1 > ulen {
                    return Err(CodecError::Transform(copy_bytes(carry)));
                }
                let pre = s.substring_char(0, index - 1);
                match unescape_quoted(pre) {
                    Ok(v2) => {
                        let out = v2.as_str().as_bytes_vec();
                        let tail = s.substring_char(index - 1, ulen);
                        let rem = tail.as_bytes_vec();
                        proof {
                            assert(s@.subrange(index - 1, s@.len() as int) =~= s@.skip(
                                index - 1,
                            ));
                        }
                        Ok((out, rem))
                    },
                    Err(_) => Err(CodecError::Transform(copy_bytes(carry))),
                }
            },
        }
    }

    fn finalize_map(&self, carry: &[u8]) -> (r: Result<Option<Vec<u8>>, CodecError>) {
        Err(CodecError::StreamIntegrity)
    }
}

/// Escape transform: escapes text going out, unescapes it coming back.
pub struct EscapeCodec;

impl Codec for EscapeCodec {
    open spec fn spec_run(
        &self,
        input: Seq<u8>,
        mode: CodecMode,
        opts: Map<Seq<u8>, Option<Seq<u8>>>,
        reg: Seq<(Seq<u8>, Option<Seq<char>>)>,
        store: Map<Seq<u8>, Seq<u8>>,
    ) -> Result<(Seq<u8>, Map<Seq<u8>, Seq<u8>>), ErrModel> {
        match mode {
            CodecMode::Encoding => if valid_utf8(input) {
                Ok((encode_utf8(escape_default_of(decode_utf8(input))), store))
            } else {
                Err(ErrModel::Transform(input))
            },
            CodecMode::Decoding => match sp_drain(EscapeDecodeMapping, input, 0, Seq::empty()) {
                Err(e) => Err(e),
                Ok(p) => if p.1.len() > 0 {
                    Err(ErrModel::StreamIntegrity)
                } else {
                    Ok((p.0, store))
                },
            },
        }
    }

    fn run_codec(
        &self,
        input: &Vec<u8>,
        mode: CodecMode,
        options: &Options,
        info: &CodecMetaInfo,
        store: &mut FileStore,
    ) -> (r: Result<Vec<u8>, CodecError>) {
        match mode {
            CodecMode::Encoding => {
                let mut enc = BytesToBytesEncoder::new(EscapeEncodeMapping);
                match enc.write(input.as_slice()) {
                    Ok(()) => {},
                    Err(e) => {
                        proof {
                            assert(Seq::<u8>::empty() + input@ =~= input@);
                        }
                        return Err(e);
                    },
                }
                proof {
                    assert(Seq::<u8>::empty() + input@ =~= input@);
                    let emit = encode_utf8(escape_default_of(decode_utf8(input@)));
                    assert(Seq::<u8>::empty() + emit =~= emit);
                }
                match enc.finalize().finish() {
                    Ok(v) => Ok(v),
                    Err(e) => Err(e),
                }
            },
            CodecMode::Decoding => {
                let mut dec = BytesToBytesDecoder::new(
                    copy_bytes(input.as_slice()),
                    EscapeDecodeMapping,
                );
                match dec.drain() {
                    Ok(v) => Ok(v),
                    Err(e) => Err(e),
                }
            },
        }
    }
}

} // verus!
