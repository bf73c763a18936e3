//! The store-facing transforms: cat, tee, sink and redirect. They read
//! and write named entries of the run's `FileStore`; a driver doing
//! real file I/O loads and unloads that store at the edges.

use vstd::prelude::*;

use crate::CodecMode;
use crate::bytes::{byte_name, copy_bytes, push_bytes};
use crate::codec_trait::{Codec, CodecUsage};
use crate::errors::{CodecError, ErrModel};
use crate::filestore::FileStore;
use crate::options::Options;
use crate::registry::CodecMetaInfo;
use vstd::string::{StringSliceAdditionalSpecFns, StringExecFns};

verus! {

pub const N_UPPER_F: u8 = 70;

pub const N_UPPER_O: u8 = 79;

pub const N_LOWER_C: u8 = 99;

/// Reads input (unless `-c` closes it) and appends the store entry the
/// `F` option names, if one is given.
pub struct CatCodecs;

impl Codec for CatCodecs {
    open spec fn spec_run(
        &self,
        input: Seq<u8>,
        mode: CodecMode,
        opts: Map<Seq<u8>, Option<Seq<u8>>>,
        reg: Seq<(Seq<u8>, Option<Seq<char>>)>,
        store: Map<Seq<u8>, Seq<u8>>,
    ) -> Result<(Seq<u8>, Map<Seq<u8>, Seq<u8>>), ErrModel> {
        let head: Seq<u8> = if opts.contains_key(seq![N_LOWER_C]) {
            Seq::empty()
        } else {
            input
        };
        if opts.contains_key(seq![N_UPPER_F]) && opts[seq![N_UPPER_F]] is Some {
            let fname = opts[seq![N_UPPER_F]]->0;
            if store.contains_key(fname) {
                Ok((head + store[fname], store))
            } else {
                Err(ErrModel::Transform(fname))
            }
        } else {
            Ok((head, store))
        }
    }

    fn run_codec(
        &self,
        input: &Vec<u8>,
        mode: CodecMode,
        options: &Options,
        info: &CodecMetaInfo,
        store: &mut FileStore,
    ) -> (r: Result<Vec<u8>, CodecError>) {
        let c_name = byte_name(N_LOWER_C);
        let mut out: Vec<u8> = Vec::new();
        if !options.get_switch(c_name.as_slice()) {
            push_bytes(&mut out, input.as_slice());
        }
        let f_name = byte_name(N_UPPER_F);
        match options.get_text_raw(f_name.as_slice()) {
            None => Ok(out),
            Some(fname) => match store.get(fname.as_slice()) {
                Some(data) => {
                    push_bytes(&mut out, data.as_slice());
                    Ok(out)
                },
                None => Err(CodecError::Transform(fname)),
            },
        }
    }
}

impl CodecUsage for CatCodecs {
    open spec fn spec_usage(&self) -> Seq<char> {
        "    (if with no argument, behave like `id`)\n    -c: (close input) do not read from input\n    -F file: also read from `file`, optional\n"@
    }

    fn usage(&self) -> (r: String) {
        String::from_str(
            "    (if with no argument, behave like `id`)\n    -c: (close input) do not read from input\n    -F file: also read from `file`, optional\n",
        )
    }
}

/// Copies input to the output (unless `-c` closes it) and to the store
/// entry the `O` option names, if one is given.
pub struct TeeCodecs;

impl Codec for TeeCodecs {
    open spec fn spec_run(
        &self,
        input: Seq<u8>,
        mode: CodecMode,
        opts: Map<Seq<u8>, Option<Seq<u8>>>,
        reg: Seq<(Seq<u8>, Option<Seq<char>>)>,
        store: Map<Seq<u8>, Seq<u8>>,
    ) -> Result<(Seq<u8>, Map<Seq<u8>, Seq<u8>>), ErrModel> {
        let store2: Map<Seq<u8>, Seq<u8>> = if opts.contains_key(seq![N_UPPER_O])
            && opts[seq![N_UPPER_O]] is Some {
            store.insert(opts[seq![N_UPPER_O]]->0, input)
        } else {
            store
        };
        let out: Seq<u8> = if opts.contains_key(seq![N_LOWER_C]) {
            Seq::empty()
        } else {
            input
        };
        Ok((out, store2))
    }

    fn run_codec(
        &self,
        input: &Vec<u8>,
        mode: CodecMode,
        options: &Options,
        info: &CodecMetaInfo,
        store: &mut FileStore,
    ) -> (r: Result<Vec<u8>, CodecError>) {
        let o_name = byte_name(N_UPPER_O);
        match options.get_text_raw(o_name.as_slice()) {
            Some(fname) => {
                store.put(fname.as_slice(), input.as_slice());
            },
            None => {},
        }
        let c_name = byte_name(N_LOWER_C);
        if options.get_switch(c_name.as_slice()) {
            Ok(Vec::new())
        } else {
            Ok(copy_bytes(input.as_slice()))
        }
    }
}

impl CodecUsage for TeeCodecs {
    open spec fn spec_usage(&self) -> Seq<char> {
        "    (if with no argument, behave like `id`)\n    -c: (close output) do not write to output\n    -O file: also write to `file`, optional\n"@
    }

    fn usage(&self) -> (r: String) {
        String::from_str(
            "    (if with no argument, behave like `id`)\n    -c: (close output) do not write to output\n    -O file: also write to `file`, optional\n",
        )
    }
}

/// Swallows its input: a tee with the output closed.
pub struct SinkCodecs(pub TeeCodecs);

impl Codec for SinkCodecs {
    open spec fn spec_run(
        &self,
        input: Seq<u8>,
        mode: CodecMode,
        opts: Map<Seq<u8>, Option<Seq<u8>>>,
        reg: Seq<(Seq<u8>, Option<Seq<char>>)>,
        store: Map<Seq<u8>, Seq<u8>>,
    ) -> Result<(Seq<u8>, Map<Seq<u8>, Seq<u8>>), ErrModel> {
        Ok((Seq::empty(), store))
    }

    fn run_codec(
        &self,
        input: &Vec<u8>,
        mode: CodecMode,
        options: &Options,
        info: &CodecMetaInfo,
        store: &mut FileStore,
    ) -> (r: Result<Vec<u8>, CodecError>) {
        let mut once = Options::new();
        let c_name = byte_name(N_LOWER_C);
        once.insert_switch(c_name.as_slice());
        self.0.run_codec(input, mode, &once, info, store)
    }
}

impl CodecUsage for SinkCodecs {
    open spec fn spec_usage(&self) -> Seq<char> {
        "    (= tee -c or redirect -O /dev/null on unix-like systems)\n    differences with repeat: repeat without arguments (=repeat -T 0) will end the\n    execution of the whole chain immediately, e.g.:\n    const -C example tee -O /dev/stdout sink\n        will output example\n    const -C example tee -O /dev/stdout repeat\n        will output nothing\n"@
    }

    fn usage(&self) -> (r: String) {
        String::from_str(
            "    (= tee -c or redirect -O /dev/null on unix-like systems)\n    differences with repeat: repeat without arguments (=repeat -T 0) will end the\n    execution of the whole chain immediately, e.g.:\n    const -C example tee -O /dev/stdout sink\n        will output example\n    const -C example tee -O /dev/stdout repeat\n        will output nothing\n",
        )
    }
}

/// Sends its input to the store entry the `O` option names and nothing
/// to the output: a closed tee with a required file.
pub struct RedirectCodecs(pub TeeCodecs);

impl Codec for RedirectCodecs {
    open spec fn spec_run(
        &self,
        input: Seq<u8>,
        mode: CodecMode,
        opts: Map<Seq<u8>, Option<Seq<u8>>>,
        reg: Seq<(Seq<u8>, Option<Seq<char>>)>,
        store: Map<Seq<u8>, Seq<u8>>,
    ) -> Result<(Seq<u8>, Map<Seq<u8>, Seq<u8>>), ErrModel> {
        if opts.contains_key(seq![N_UPPER_O]) && opts[seq![N_UPPER_O]] is Some {
            Ok((Seq::empty(), store.insert(opts[seq![N_UPPER_O]]->0, input)))
        } else {
            Err(
                ErrModel::Transform(
                    "redirect: missing required option output file (-O)".spec_bytes(),
                ),
            )
        }
    }

    fn run_codec(
        &self,
        input: &Vec<u8>,
        mode: CodecMode,
        options: &Options,
        info: &CodecMetaInfo,
        store: &mut FileStore,
    ) -> (r: Result<Vec<u8>, CodecError>) {
        let o_name = byte_name(N_UPPER_O);
        let fname = match options.get_text_raw(o_name.as_slice()) {
            Some(v) => v,
            None => {
                return Err(
                    CodecError::Transform(
                        copy_bytes(
                            "redirect: missing required option output file (-O)".as_bytes(),
                        ),
                    ),
                );
            },
        };
        let mut once = Options::new();
        let c_name = byte_name(N_LOWER_C);
        once.insert_switch(c_name.as_slice());
        once.insert_text(o_name.as_slice(), fname.as_slice());
        self.0.run_codec(input, mode, &once, info, store)
    }
}

impl CodecUsage for RedirectCodecs {
    open spec fn spec_usage(&self) -> Seq<char> {
        "    = tee -c -O `file`\n    -O file: redirect output to `file`\n"@
    }

    fn usage(&self) -> (r: String) {
        String::from_str("    = tee -c -O `file`\n    -O file: redirect output to `file`\n")
    }
}

} // verus!
