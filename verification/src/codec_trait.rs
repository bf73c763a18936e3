//! The transform contract every stage implementation satisfies.
//!
//! A transform reads whole input bytes, the ambient direction, its
//! resolved options, the registry listing and the file store, and yields
//! output bytes, possibly updating the store. Each implementation gives
//! its complete functional model as `spec_run`; `run_codec` is proved to
//! agree with it, error for error.

use vstd::prelude::*;

use crate::CodecMode;
use crate::errors::{CodecError, ErrModel};
use crate::filestore::FileStore;
use crate::options::Options;
use crate::registry::CodecMetaInfo;

verus! {

pub trait Codec: Sized {
    /// The functional model: what this transform returns and how it
    /// changes the store, for every input.
    spec fn spec_run(
        &self,
        input: Seq<u8>,
        mode: CodecMode,
        opts: Map<Seq<u8>, Option<Seq<u8>>>,
        reg: Seq<(Seq<u8>, Option<Seq<char>>)>,
        store: Map<Seq<u8>, Seq<u8>>,
    ) -> Result<(Seq<u8>, Map<Seq<u8>, Seq<u8>>), ErrModel>;

    /// Runs the transform over whole in-memory buffers.
    fn run_codec(
        &self,
        input: &Vec<u8>,
        mode: CodecMode,
        options: &Options,
        info: &CodecMetaInfo,
        store: &mut FileStore,
    ) -> (r: Result<Vec<u8>, CodecError>)
        requires
            options.wf(),
        ensures
            ({
                let s = self.spec_run(input@, mode, options@, info.listing(), old(store)@);
                match r {
                    Ok(v) => ({
                        &&& s matches Ok(p)
                        &&& v@ == p.0
                        &&& final(store)@ == p.1
                    }),
                    Err(e) => ({
                        &&& s matches Err(d)
                        &&& e@ == d
                        &&& final(store)@ == old(store)@
                    }),
                }
            }),
    ;
}

/// The optional usage capability: a short text describing the options.
pub trait CodecUsage: Sized {
    /// The text `usage` returns.
    spec fn spec_usage(&self) -> Seq<char>;

    fn usage(&self) -> (r: String)
        ensures
            r@ == self.spec_usage(),
    ;
}

/// A transform that also reads the registry it was found in, such as the
/// one that lists every registered name.
pub trait MetaCodec: Sized {
    spec fn spec_run_meta(
        &self,
        input: Seq<u8>,
        mode: CodecMode,
        opts: Map<Seq<u8>, Option<Seq<u8>>>,
        reg: Seq<(Seq<u8>, Option<Seq<char>>)>,
    ) -> Result<Seq<u8>, ErrModel>;

    fn run_meta_codec(
        &self,
        input: &Vec<u8>,
        mode: CodecMode,
        options: &Options,
        codec_meta_info: &CodecMetaInfo,
    ) -> (r: Result<Vec<u8>, CodecError>)
        requires
            options.wf(),
        ensures
            ({
                let s = self.spec_run_meta(input@, mode, options@, codec_meta_info.listing());
                match r {
                    Ok(v) => s matches Ok(o) && v@ == o,
                    Err(e) => s matches Err(d) && e@ == d,
                }
            }),
    ;
}

} // verus!
