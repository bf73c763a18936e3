//! The structural transforms: pass-through, constant, repeat, append,
//! newline, drop and take.

use vstd::prelude::*;

use crate::CodecMode;
use crate::bytes::{byte_name, copy_bytes, push_bytes, sub_bytes, B_NEWLINE};
use crate::codec_trait::{Codec, CodecUsage};
use crate::errors::{CodecError, ErrModel};
use crate::filestore::FileStore;
use crate::options::{dec_repr, sp_get_i64, sp_get_u64, Options};
use crate::registry::CodecMetaInfo;
use vstd::string::{StringSliceAdditionalSpecFns, StringExecFns};

verus! {

// Byte values of the option names these transforms read.
pub const N_UPPER_T: u8 = 84;

pub const N_UPPER_C: u8 = 67;

pub const N_UPPER_A: u8 = 65;

pub const N_UPPER_B: u8 = 66;

/// `input` repeated `n` times, end to end.
pub open spec fn repeat_bytes(s: Seq<u8>, n: int) -> Seq<u8>
    decreases n,
{
    if n <= 0 {
        Seq::empty()
    } else {
        repeat_bytes(s, n - 1) + s
    }
}

/// Repeats its input the number of times the `T` option says; zero
/// times when absent.
pub struct RepeatCodecs;

impl Codec for RepeatCodecs {
    open spec fn spec_run(
        &self,
        input: Seq<u8>,
        mode: CodecMode,
        opts: Map<Seq<u8>, Option<Seq<u8>>>,
        reg: Seq<(Seq<u8>, Option<Seq<char>>)>,
        store: Map<Seq<u8>, Seq<u8>>,
    ) -> Result<(Seq<u8>, Map<Seq<u8>, Seq<u8>>), ErrModel> {
        match sp_get_i64(opts, seq![N_UPPER_T]) {
            Err(e) => Err(e),
            Ok(t) => {
                let times = match t {
                    Some(v) => v as int,
                    None => 0,
                };
                if times < 0 {
                    Err(ErrModel::Transform("repeat: times cannot be minus".spec_bytes()))
                } else {
                    Ok((repeat_bytes(input, times), store))
                }
            },
        }
    }

    fn run_codec(
        &self,
        input: &Vec<u8>,
        mode: CodecMode,
        options: &Options,
        info: &CodecMetaInfo,
        store: &mut FileStore,
    ) -> (r: Result<Vec<u8>, CodecError>) {
        let name = byte_name(N_UPPER_T);
        let times: i64 = match options.get_text(name.as_slice()) {
            Err(e) => {
                return Err(e);
            },
            Ok(Some(v)) => v,
            Ok(None) => 0,
        };
        if times < 0 {
            return Err(CodecError::Transform(copy_bytes("repeat: times cannot be minus".as_bytes())));
        }
        let mut out: Vec<u8> = Vec::new();
        if times > 0 {
            let mut k: i64 = 0;
            while k < times
                invariant
                    0 <= k <= times,
                    out@ == repeat_bytes(input@, k as int),
                decreases times - k,
            {
                push_bytes(&mut out, input.as_slice());
                k = k + 1;
            }
        }
        Ok(out)
    }
}

impl CodecUsage for RepeatCodecs {
    open spec fn spec_usage(&self) -> Seq<char> {
        "    -T times: repeat input for `times` times (int, >=0, default 0)"@
    }

    fn usage(&self) -> (r: String) {
        String::from_str("    -T times: repeat input for `times` times (int, >=0, default 0)")
    }
}

/// Passes input through unchanged; a repeat of exactly one.
pub struct IdCodecs(pub RepeatCodecs);

impl Codec for IdCodecs {
    open spec fn spec_run(
        &self,
        input: Seq<u8>,
        mode: CodecMode,
        opts: Map<Seq<u8>, Option<Seq<u8>>>,
        reg: Seq<(Seq<u8>, Option<Seq<char>>)>,
        store: Map<Seq<u8>, Seq<u8>>,
    ) -> Result<(Seq<u8>, Map<Seq<u8>, Seq<u8>>), ErrModel> {
        Ok((input, store))
    }

    fn run_codec(
        &self,
        input: &Vec<u8>,
        mode: CodecMode,
        options: &Options,
        info: &CodecMetaInfo,
        store: &mut FileStore,
    ) -> (r: Result<Vec<u8>, CodecError>) {
        let mut once = Options::new();
        let name = byte_name(N_UPPER_T);
        once.insert_text_str(name.as_slice(), 1);
        let r = self.0.run_codec(input, mode, &once, info, store);
        proof {
            lemma_parse_one();
            assert(repeat_bytes(input@, 0) == Seq::<u8>::empty());
            assert(repeat_bytes(input@, 1) =~= Seq::<u8>::empty() + input@);
            assert(repeat_bytes(input@, 1) =~= input@);
        }
        r
    }
}

/// The numeral `1` parses to one.
proof fn lemma_parse_one()
    ensures
        crate::bytes::sp_parse_i64(dec_repr(1)) == Some(1i64),
{
    let s = dec_repr(1);
    assert(s == seq![49u8]);
    assert(crate::bytes::dec_digits_part(s) == s);
    assert(crate::bytes::all_digits(s)) by {
        assert(forall|i: int| 0 <= i < s.len() ==> s[i] == 49 && crate::bytes::is_digit_byte(
            #[trigger] s[i],
        ));
    }
    assert(s.drop_last() =~= Seq::<u8>::empty());
    assert(s.last() == 49);
    assert(crate::bytes::dec_val(s.drop_last()) == 0);
    assert(crate::bytes::dec_val(s) == (0 * 10 + (49 - crate::bytes::B_ZERO)) as nat);
}

impl CodecUsage for IdCodecs {
    open spec fn spec_usage(&self) -> Seq<char> {
        "    pass input to output as is"@
    }

    fn usage(&self) -> (r: String) {
        String::from_str("    pass input to output as is")
    }
}

/// Ignores its input and emits the `C` option's bytes instead.
pub struct ConstCodecs(pub IdCodecs);

impl Codec for ConstCodecs {
    open spec fn spec_run(
        &self,
        input: Seq<u8>,
        mode: CodecMode,
        opts: Map<Seq<u8>, Option<Seq<u8>>>,
        reg: Seq<(Seq<u8>, Option<Seq<char>>)>,
        store: Map<Seq<u8>, Seq<u8>>,
    ) -> Result<(Seq<u8>, Map<Seq<u8>, Seq<u8>>), ErrModel> {
        if opts.contains_key(seq![N_UPPER_C]) && opts[seq![N_UPPER_C]] is Some {
            Ok((opts[seq![N_UPPER_C]]->0, store))
        } else {
            Err(
                ErrModel::Transform(
                    "const: missing required option const value (-C)".spec_bytes(),
                ),
            )
        }
    }

    fn run_codec(
        &self,
        input: &Vec<u8>,
        mode: CodecMode,
        options: &Options,
        info: &CodecMetaInfo,
        store: &mut FileStore,
    ) -> (r: Result<Vec<u8>, CodecError>) {
        let name = byte_name(N_UPPER_C);
        let value = match options.get_text_raw(name.as_slice()) {
            Some(v) => v,
            None => {
                return Err(
                    CodecError::Transform(
                        copy_bytes("const: missing required option const value (-C)".as_bytes()),
                    ),
                );
            },
        };
        self.0.run_codec(&value, mode, options, info, store)
    }
}

impl CodecUsage for ConstCodecs {
    open spec fn spec_usage(&self) -> Seq<char> {
        "    -C replacement: ingore input, and replace the output with `replacement`\n"@
    }

    fn usage(&self) -> (r: String) {
        String::from_str(
            "    -C replacement: ingore input, and replace the output with `replacement`\n",
        )
    }
}

/// Passes input through, then appends the `A` option's bytes.
pub struct AppendCodecs;

impl Codec for AppendCodecs {
    open spec fn spec_run(
        &self,
        input: Seq<u8>,
        mode: CodecMode,
        opts: Map<Seq<u8>, Option<Seq<u8>>>,
        reg: Seq<(Seq<u8>, Option<Seq<char>>)>,
        store: Map<Seq<u8>, Seq<u8>>,
    ) -> Result<(Seq<u8>, Map<Seq<u8>, Seq<u8>>), ErrModel> {
        if opts.contains_key(seq![N_UPPER_A]) && opts[seq![N_UPPER_A]] is Some {
            Ok((input + opts[seq![N_UPPER_A]]->0, store))
        } else {
            Err(
                ErrModel::Transform(
                    "append: missing required option append value (-A)".spec_bytes(),
                ),
            )
        }
    }

    fn run_codec(
        &self,
        input: &Vec<u8>,
        mode: CodecMode,
        options: &Options,
        info: &CodecMetaInfo,
        store: &mut FileStore,
    ) -> (r: Result<Vec<u8>, CodecError>) {
        let name = byte_name(N_UPPER_A);
        let value = match options.get_text_raw(name.as_slice()) {
            Some(v) => v,
            None => {
                return Err(
                    CodecError::Transform(
                        copy_bytes("append: missing required option append value (-A)".as_bytes()),
                    ),
                );
            },
        };
        let mut out = copy_bytes(input.as_slice());
        push_bytes(&mut out, value.as_slice());
        Ok(out)
    }
}

impl CodecUsage for AppendCodecs {
    open spec fn spec_usage(&self) -> Seq<char> {
        "    -A string: pass input to output, and then append `string`\n"@
    }

    fn usage(&self) -> (r: String) {
        String::from_str("    -A string: pass input to output, and then append `string`\n")
    }
}

/// Appends a newline; an append with a fixed suffix.
pub struct NewLineCodecs(pub AppendCodecs);

impl Codec for NewLineCodecs {
    open spec fn spec_run(
        &self,
        input: Seq<u8>,
        mode: CodecMode,
        opts: Map<Seq<u8>, Option<Seq<u8>>>,
        reg: Seq<(Seq<u8>, Option<Seq<char>>)>,
        store: Map<Seq<u8>, Seq<u8>>,
    ) -> Result<(Seq<u8>, Map<Seq<u8>, Seq<u8>>), ErrModel> {
        Ok((input + seq![B_NEWLINE], store))
    }

    fn run_codec(
        &self,
        input: &Vec<u8>,
        mode: CodecMode,
        options: &Options,
        info: &CodecMetaInfo,
        store: &mut FileStore,
    ) -> (r: Result<Vec<u8>, CodecError>) {
        let mut once = Options::new();
        let name = byte_name(N_UPPER_A);
        let nl = byte_name(B_NEWLINE);
        once.insert_text(name.as_slice(), nl.as_slice());
        self.0.run_codec(input, mode, &once, info, store)
    }
}

impl CodecUsage for NewLineCodecs {
    open spec fn spec_usage(&self) -> Seq<char> {
        "    (= append -A ['\\n' escape -d])\n    append new line\n"@
    }

    fn usage(&self) -> (r: String) {
        String::from_str("    (= append -A ['\\n' escape -d])\n    append new line\n")
    }
}

/// The count capped at the input length.
pub open spec fn capped(n: u64, len: nat) -> int {
    if n as int <= len as int {
        n as int
    } else {
        len as int
    }
}

/// What `take` emits: the first `B` bytes, or everything when `B`
/// reaches past the end.
pub open spec fn sp_take_out(input: Seq<u8>, n: u64) -> Seq<u8> {
    input.take(capped(n, input.len()))
}

/// What `drop` emits: everything after the first `B` bytes.
pub open spec fn sp_drop_out(input: Seq<u8>, n: u64) -> Seq<u8> {
    input.skip(capped(n, input.len()))
}

/// Discards the first `B` bytes, passes the rest.
pub struct DropCodecs;

impl Codec for DropCodecs {
    open spec fn spec_run(
        &self,
        input: Seq<u8>,
        mode: CodecMode,
        opts: Map<Seq<u8>, Option<Seq<u8>>>,
        reg: Seq<(Seq<u8>, Option<Seq<char>>)>,
        store: Map<Seq<u8>, Seq<u8>>,
    ) -> Result<(Seq<u8>, Map<Seq<u8>, Seq<u8>>), ErrModel> {
        match sp_get_u64(opts, seq![N_UPPER_B]) {
            Err(e) => Err(e),
            Ok(t) => {
                let n = match t {
                    Some(v) => v,
                    None => 0,
                };
                Ok((sp_drop_out(input, n), store))
            },
        }
    }

    fn run_codec(
        &self,
        input: &Vec<u8>,
        mode: CodecMode,
        options: &Options,
        info: &CodecMetaInfo,
        store: &mut FileStore,
    ) -> (r: Result<Vec<u8>, CodecError>) {
        let name = byte_name(N_UPPER_B);
        let n: u64 = match options.get_text_u64(name.as_slice()) {
            Err(e) => {
                return Err(e);
            },
            Ok(Some(v)) => v,
            Ok(None) => 0,
        };
        let start: usize = if n <= input.len() as u64 {
            n as usize
        } else {
            input.len()
        };
        Ok(sub_bytes(input.as_slice(), start, input.len()))
    }
}

impl CodecUsage for DropCodecs {
    open spec fn spec_usage(&self) -> Seq<char> {
        "    -B count: drop at most first `count` bytes from input\n"@
    }

    fn usage(&self) -> (r: String) {
        String::from_str("    -B count: drop at most first `count` bytes from input\n")
    }
}

/// Passes only the first `B` bytes.
pub struct TakeCodecs;

impl Codec for TakeCodecs {
    open spec fn spec_run(
        &self,
        input: Seq<u8>,
        mode: CodecMode,
        opts: Map<Seq<u8>, Option<Seq<u8>>>,
        reg: Seq<(Seq<u8>, Option<Seq<char>>)>,
        store: Map<Seq<u8>, Seq<u8>>,
    ) -> Result<(Seq<u8>, Map<Seq<u8>, Seq<u8>>), ErrModel> {
        match sp_get_u64(opts, seq![N_UPPER_B]) {
            Err(e) => Err(e),
            Ok(t) => {
                let n = match t {
                    Some(v) => v,
                    None => 0,
                };
                Ok((sp_take_out(input, n), store))
            },
        }
    }

    fn run_codec(
        &self,
        input: &Vec<u8>,
        mode: CodecMode,
        options: &Options,
        info: &CodecMetaInfo,
        store: &mut FileStore,
    ) -> (r: Result<Vec<u8>, CodecError>) {
        let name = byte_name(N_UPPER_B);
        let n: u64 = match options.get_text_u64(name.as_slice()) {
            Err(e) => {
                return Err(e);
            },
            Ok(Some(v)) => v,
            Ok(None) => 0,
        };
        let end: usize = if n <= input.len() as u64 {
            n as usize
        } else {
            input.len()
        };
        Ok(sub_bytes(input.as_slice(), 0, end))
    }
}

impl CodecUsage for TakeCodecs {
    open spec fn spec_usage(&self) -> Seq<char> {
        "    -B count: take up to first `count` bytes from input\n"@
    }

    fn usage(&self) -> (r: String) {
        String::from_str("    -B count: take up to first `count` bytes from input\n")
    }
}

/// What `take` keeps and what `drop` discards rejoin to the input, for
/// every count, including counts past the end.
pub proof fn lemma_take_drop_complementarity(input: Seq<u8>, n: u64)
    ensures
        sp_take_out(input, n) + sp_drop_out(input, n) == input,
{
    assert(sp_take_out(input, n) + sp_drop_out(input, n) =~= input);
}

} // verus!
