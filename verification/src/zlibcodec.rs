//! Zlib compression. The codec internals are the outside crate's
//! business; its results are named, and the engine keeps the level
//! option handling verified.

use vstd::prelude::*;

use crate::CodecMode;
use crate::bytes::{byte_name, copy_bytes};
use crate::codec_trait::{Codec, CodecUsage};
use crate::errors::{CodecError, ErrModel};
use crate::filestore::FileStore;
use crate::options::{sp_get_u64, Options};
use crate::registry::CodecMetaInfo;
use vstd::string::{StringSliceAdditionalSpecFns, StringExecFns};

verus! {

pub const N_UPPER_L: u8 = 76;

/// The default compression level, as `flate2::Compression::default()`
/// reports it.
pub const ZLIB_DEFAULT_LEVEL: u64 = 6;

/// The highest level the stage accepts; the backend asserts on levels
/// above ten in builds with debug assertions on, so larger requests are
/// rejected before the call.
pub const ZLIB_MAX_LEVEL: u64 = 9;

/// What deflating at a level yields: deterministic in level and input.
pub uninterp spec fn zlib_deflate_of(level: int, data: Seq<u8>) -> Seq<u8>;

/// What inflating yields; `None` where the stream is rejected.
pub uninterp spec fn zlib_inflate_of(data: Seq<u8>) -> Option<Seq<u8>>;

/// Relies on `flate2::write::ZlibEncoder` over an in-memory buffer:
/// deterministic in the level and input, and writes into a buffer
/// cannot fail; inflating the stream it produced gives the input back,
/// the crate's documented pairing. The backend asserts that the level
/// stays at or below ten in debug-assertion builds, so larger levels
/// are excluded here.
#[verifier::external_body]
fn zlib_compress(level: u32, data: &[u8]) -> (r: Vec<u8>)
    requires
        level <= ZLIB_MAX_LEVEL,
    ensures
        r@ == zlib_deflate_of(level as int, data@),
        zlib_inflate_of(r@) == Some(data@),
{
    let mut enc = flate2::write::ZlibEncoder::new(Vec::new(), flate2::Compression::new(level));
    std::io::Write::write_all(&mut enc, data).expect("writing to a buffer does not fail");
    enc.finish().expect("finishing into a buffer does not fail")
}

/// Relies on `flate2::read::ZlibDecoder` over an in-memory buffer:
/// deterministic in the input, `None` where the stream is rejected.
#[verifier::external_body]
fn zlib_decompress(data: &[u8]) -> (r: Option<Vec<u8>>)
    ensures
        match r {
            Some(v) => zlib_inflate_of(data@) == Some(v@),
            None => zlib_inflate_of(data@) is None,
        },
{
    let mut dec = flate2::read::ZlibDecoder::new(data);
    let mut out = Vec::new();
    match std::io::Read::read_to_end(&mut dec, &mut out) {
        Ok(_) => Some(out),
        Err(_) => None,
    }
}

/// Zlib transform: `-L` picks the compression level when encoding.
pub struct ZlibCodec;

impl Codec for ZlibCodec {
    open spec fn spec_run(
        &self,
        input: Seq<u8>,
        mode: CodecMode,
        opts: Map<Seq<u8>, Option<Seq<u8>>>,
        reg: Seq<(Seq<u8>, Option<Seq<char>>)>,
        store: Map<Seq<u8>, Seq<u8>>,
    ) -> Result<(Seq<u8>, Map<Seq<u8>, Seq<u8>>), ErrModel> {
        match mode {
            CodecMode::Encoding => match sp_get_u64(opts, seq![N_UPPER_L]) {
                Err(e) => Err(e),
                Ok(t) => {
                    let level = match t {
                        Some(v) => v,
                        None => ZLIB_DEFAULT_LEVEL,
                    };
                    if level > ZLIB_MAX_LEVEL {
                        Err(ErrModel::Transform("zlib: level out of range".spec_bytes()))
                    } else {
                        Ok((zlib_deflate_of(level as int, input), store))
                    }
                },
            },
            CodecMode::Decoding => match zlib_inflate_of(input) {
                Some(v) => Ok((v, store)),
                None => Err(ErrModel::Transform(input)),
            },
        }
    }

    fn run_codec(
        &self,
        input: &Vec<u8>,
        mode: CodecMode,
        options: &Options,
        info: &CodecMetaInfo,
        store: &mut FileStore,
    ) -> (r: Result<Vec<u8>, CodecError>)
        ensures
            mode is Encoding ==> (r matches Ok(v) ==> zlib_inflate_of(v@) == Some(input@)),
    {
        match mode {
            CodecMode::Encoding => {
                let l_name = byte_name(N_UPPER_L);
                let level: u64 = match options.get_text_u64(l_name.as_slice()) {
                    Err(e) => {
                        return Err(e);
                    },
                    Ok(Some(v)) => v,
                    Ok(None) => ZLIB_DEFAULT_LEVEL,
                };
                if level > ZLIB_MAX_LEVEL {
                    return Err(
                        CodecError::Transform(copy_bytes("zlib: level out of range".as_bytes())),
                    );
                }
                Ok(zlib_compress(level as u32, input.as_slice()))
            },
            CodecMode::Decoding => match zlib_decompress(input.as_slice()) {
                Some(v) => Ok(v),
                None => Err(CodecError::Transform(copy_bytes(input.as_slice()))),
            },
        }
    }
}

impl CodecUsage for ZlibCodec {
    open spec fn spec_usage(&self) -> Seq<char> {
        "    -L level: compress level (int, [-2, 9], default -1)\n"@
    }

    fn usage(&self) -> (r: String) {
        String::from_str("    -L level: compress level (int, [-2, 9], default -1)\n")
    }
}

} // verus!
