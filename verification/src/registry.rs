//! The name-to-transform registry.
//!
//! Built once at startup, read-only afterwards; the executor and every
//! recursively evaluated sub-pipeline share one registry by reference.
//! Registration order is kept; a later registration of the same name
//! wins on lookup.

use vstd::prelude::*;

use crate::CodecMode;
use crate::blockcipher::{AesCodec, BlockCipherMode, BlockCipherType, Sm4Codec};
use crate::hashcodec::{HashCodec, HashType};
use vstd::string::StringSliceAdditionalSpecFns;
use crate::basic::{
    AppendCodecs, ConstCodecs, DropCodecs, IdCodecs, NewLineCodecs, RepeatCodecs, TakeCodecs,
};
use crate::files::{CatCodecs, RedirectCodecs, SinkCodecs, TeeCodecs};
use crate::base64codec::Base64Codec;
use crate::escapecodec::EscapeCodec;
use crate::hexcodec::HexCodec;
use crate::urlcodec::UrlCodec;
use crate::zlibcodec::ZlibCodec;
use crate::usagecodec::UsageMetaCodec;
use crate::bytes::bytes_eq;
use crate::codec_trait::{Codec, CodecUsage};
use crate::errors::{CodecError, ErrModel};
use crate::filestore::FileStore;
use crate::options::Options;

verus! {

/// Every transform the registry can hold, dispatched by match; the
/// registry's one value type.
pub enum CodecKind {
    Repeat(RepeatCodecs),
    Id(IdCodecs),
    Const(ConstCodecs),
    Append(AppendCodecs),
    NewLine(NewLineCodecs),
    Drop(DropCodecs),
    Take(TakeCodecs),
    Cat(CatCodecs),
    Tee(TeeCodecs),
    Sink(SinkCodecs),
    Redirect(RedirectCodecs),
    Usage(UsageMetaCodec),
    Hex(HexCodec),
    Base64(Base64Codec),
    Aes(AesCodec),
    Sm4(Sm4Codec),
    Hash(HashCodec),
    Url(UrlCodec),
    Zlib(ZlibCodec),
    Escape(EscapeCodec),
}

impl CodecKind {
    /// The functional model of this transform.
    pub open spec fn spec_run_kind(
        &self,
        input: Seq<u8>,
        mode: CodecMode,
        opts: Map<Seq<u8>, Option<Seq<u8>>>,
        reg: Seq<(Seq<u8>, Option<Seq<char>>)>,
        store: Map<Seq<u8>, Seq<u8>>,
    ) -> Result<(Seq<u8>, Map<Seq<u8>, Seq<u8>>), ErrModel> {
        match self {
            CodecKind::Repeat(c) => c.spec_run(input, mode, opts, reg, store),
            CodecKind::Id(c) => c.spec_run(input, mode, opts, reg, store),
            CodecKind::Const(c) => c.spec_run(input, mode, opts, reg, store),
            CodecKind::Append(c) => c.spec_run(input, mode, opts, reg, store),
            CodecKind::NewLine(c) => c.spec_run(input, mode, opts, reg, store),
            CodecKind::Drop(c) => c.spec_run(input, mode, opts, reg, store),
            CodecKind::Take(c) => c.spec_run(input, mode, opts, reg, store),
            CodecKind::Cat(c) => c.spec_run(input, mode, opts, reg, store),
            CodecKind::Tee(c) => c.spec_run(input, mode, opts, reg, store),
            CodecKind::Sink(c) => c.spec_run(input, mode, opts, reg, store),
            CodecKind::Redirect(c) => c.spec_run(input, mode, opts, reg, store),
            CodecKind::Usage(c) => c.spec_run(input, mode, opts, reg, store),
            CodecKind::Hex(c) => c.spec_run(input, mode, opts, reg, store),
            CodecKind::Base64(c) => c.spec_run(input, mode, opts, reg, store),
            CodecKind::Aes(c) => c.spec_run(input, mode, opts, reg, store),
            CodecKind::Sm4(c) => c.spec_run(input, mode, opts, reg, store),
            CodecKind::Hash(c) => c.spec_run(input, mode, opts, reg, store),
            CodecKind::Url(c) => c.spec_run(input, mode, opts, reg, store),
            CodecKind::Zlib(c) => c.spec_run(input, mode, opts, reg, store),
            CodecKind::Escape(c) => c.spec_run(input, mode, opts, reg, store),
        }
    }

    /// The usage text this transform offers, if any.
    pub open spec fn spec_usage_of(&self) -> Option<Seq<char>> {
        match self {
            CodecKind::Repeat(c) => Some(c.spec_usage()),
            CodecKind::Id(c) => Some(c.spec_usage()),
            CodecKind::Const(c) => Some(c.spec_usage()),
            CodecKind::Append(c) => Some(c.spec_usage()),
            CodecKind::NewLine(c) => Some(c.spec_usage()),
            CodecKind::Drop(c) => Some(c.spec_usage()),
            CodecKind::Take(c) => Some(c.spec_usage()),
            CodecKind::Cat(c) => Some(c.spec_usage()),
            CodecKind::Tee(c) => Some(c.spec_usage()),
            CodecKind::Sink(c) => Some(c.spec_usage()),
            CodecKind::Redirect(c) => Some(c.spec_usage()),
            CodecKind::Usage(_) => None,
            CodecKind::Hex(_) => None,
            CodecKind::Base64(c) => Some(c.spec_usage()),
            CodecKind::Aes(c) => Some(c.spec_usage()),
            CodecKind::Sm4(c) => Some(c.spec_usage()),
            CodecKind::Hash(c) => Some(c.spec_usage()),
            CodecKind::Url(c) => Some(c.spec_usage()),
            CodecKind::Zlib(c) => Some(c.spec_usage()),
            CodecKind::Escape(_) => None,
        }
    }

    /// Runs the transform this kind names.
    pub fn run_kind(
        &self,
        input: &Vec<u8>,
        mode: CodecMode,
        options: &Options,
        info: &CodecMetaInfo,
        store: &mut FileStore,
    ) -> (r: Result<Vec<u8>, CodecError>)
        requires
            options.wf(),
        ensures
            ({
                let s = self.spec_run_kind(input@, mode, options@, info.listing(), old(store)@);
                match r {
                    Ok(v) => ({
                        &&& s matches Ok(p)
                        &&& v@ == p.0
                        &&& final(store)@ == p.1
                    }),
                    Err(e) => ({
                        &&& s matches Err(d)
                        &&& e@ == d
                        &&& final(store)@ == old(store)@
                    }),
                }
            }),
    {
        match self {
            CodecKind::Repeat(c) => c.run_codec(input, mode, options, info, store),
            CodecKind::Id(c) => c.run_codec(input, mode, options, info, store),
            CodecKind::Const(c) => c.run_codec(input, mode, options, info, store),
            CodecKind::Append(c) => c.run_codec(input, mode, options, info, store),
            CodecKind::NewLine(c) => c.run_codec(input, mode, options, info, store),
            CodecKind::Drop(c) => c.run_codec(input, mode, options, info, store),
            CodecKind::Take(c) => c.run_codec(input, mode, options, info, store),
            CodecKind::Cat(c) => c.run_codec(input, mode, options, info, store),
            CodecKind::Tee(c) => c.run_codec(input, mode, options, info, store),
            CodecKind::Sink(c) => c.run_codec(input, mode, options, info, store),
            CodecKind::Redirect(c) => c.run_codec(input, mode, options, info, store),
            CodecKind::Usage(c) => c.run_codec(input, mode, options, info, store),
            CodecKind::Hex(c) => c.run_codec(input, mode, options, info, store),
            CodecKind::Base64(c) => c.run_codec(input, mode, options, info, store),
            CodecKind::Aes(c) => c.run_codec(input, mode, options, info, store),
            CodecKind::Sm4(c) => c.run_codec(input, mode, options, info, store),
            CodecKind::Hash(c) => c.run_codec(input, mode, options, info, store),
            CodecKind::Url(c) => c.run_codec(input, mode, options, info, store),
            CodecKind::Zlib(c) => c.run_codec(input, mode, options, info, store),
            CodecKind::Escape(c) => c.run_codec(input, mode, options, info, store),
        }
    }

    /// The usage text, where the transform offers one.
    pub fn usage_text(&self) -> (r: Option<String>)
        ensures
            match r {
                Some(s) => self.spec_usage_of() == Some(s@),
                None => self.spec_usage_of() is None,
            },
    {
        match self {
            CodecKind::Repeat(c) => Some(c.usage()),
            CodecKind::Id(c) => Some(c.usage()),
            CodecKind::Const(c) => Some(c.usage()),
            CodecKind::Append(c) => Some(c.usage()),
            CodecKind::NewLine(c) => Some(c.usage()),
            CodecKind::Drop(c) => Some(c.usage()),
            CodecKind::Take(c) => Some(c.usage()),
            CodecKind::Cat(c) => Some(c.usage()),
            CodecKind::Tee(c) => Some(c.usage()),
            CodecKind::Sink(c) => Some(c.usage()),
            CodecKind::Redirect(c) => Some(c.usage()),
            CodecKind::Usage(_) => None,
            CodecKind::Hex(_) => None,
            CodecKind::Base64(c) => Some(c.usage()),
            CodecKind::Aes(c) => Some(c.usage()),
            CodecKind::Sm4(c) => Some(c.usage()),
            CodecKind::Hash(c) => Some(c.usage()),
            CodecKind::Url(c) => Some(c.usage()),
            CodecKind::Zlib(c) => Some(c.usage()),
            CodecKind::Escape(_) => None,
        }
    }
}

/// One registration: a name and the transform behind it.
pub struct RegEntry {
    pub name: Vec<u8>,
    pub kind: CodecKind,
}

/// The registry value: registration order kept, later same-name
/// registrations winning on lookup.
pub struct CodecMetaInfo {
    codecs: Vec<RegEntry>,
}

/// Lookup over the registry model: the last registration of the name.
pub open spec fn sp_lookup(reg: Seq<(Seq<u8>, CodecKind)>, name: Seq<u8>) -> Option<CodecKind>
    decreases reg.len(),
{
    if reg.len() == 0 {
        None
    } else if reg.last().0 == name {
        Some(reg.last().1)
    } else {
        sp_lookup(reg.drop_last(), name)
    }
}

/// The registry listing a meta transform sees: each name with its usage
/// text, in registration order.
pub open spec fn listing_of(reg: Seq<(Seq<u8>, CodecKind)>) -> Seq<
    (Seq<u8>, Option<Seq<char>>),
> {
    Seq::new(reg.len(), |i: int| (reg[i].0, reg[i].1.spec_usage_of()))
}

impl CodecMetaInfo {
    /// The registered (name, transform) pairs in order.
    pub closed spec fn kinds(&self) -> Seq<(Seq<u8>, CodecKind)> {
        Seq::new(self.codecs@.len(), |i: int| (self.codecs@[i].name@, self.codecs@[i].kind))
    }

    /// The listing a meta transform reads.
    pub open spec fn listing(&self) -> Seq<(Seq<u8>, Option<Seq<char>>)> {
        listing_of(self.kinds())
    }

    /// An empty registry.
    pub fn new() -> (r: CodecMetaInfo)
        ensures
            r.kinds() == Seq::<(Seq<u8>, CodecKind)>::empty(),
    {
        let r = CodecMetaInfo { codecs: Vec::new() };
        proof {
            assert(r.kinds() =~= Seq::<(Seq<u8>, CodecKind)>::empty());
        }
        r
    }

    /// Registers a transform under a name.
    pub fn register(&mut self, name: &[u8], codec: CodecKind)
        ensures
            final(self).kinds() == old(self).kinds().push((name@, codec)),
    {
        self.codecs.push(RegEntry { name: crate::bytes::copy_bytes(name), kind: codec });
        proof {
            assert(self.kinds() =~= old(self).kinds().push((name@, codec)));
        }
    }

    /// Registers a transform that reads the registry listing.
    pub fn register_meta(&mut self, name: &[u8], meta: UsageMetaCodec)
        ensures
            final(self).kinds() == old(self).kinds().push((name@, CodecKind::Usage(meta))),
    {
        self.register(name, CodecKind::Usage(meta));
    }

    /// Finds the transform registered under a name.
    pub fn lookup(&self, name: &[u8]) -> (r: Option<&CodecKind>)
        ensures
            match r {
                Some(k) => sp_lookup(self.kinds(), name@) == Some(*k),
                None => sp_lookup(self.kinds(), name@) is None,
            },
    {
        let mut i: usize = self.codecs.len();
        proof {
            assert(self.kinds().take(i as int) =~= self.kinds());
        }
        while i > 0
            invariant
                i <= self.codecs@.len(),
                sp_lookup(self.kinds(), name@) == sp_lookup(
                    self.kinds().take(i as int),
                    name@,
                ),
            decreases i,
        {
            i -= 1;
            proof {
                assert(self.kinds().take(i + 1 as int).last() == self.kinds()[i as int]);
                assert(self.kinds().take(i + 1 as int).drop_last() =~= self.kinds().take(
                    i as int,
                ));
            }
            if bytes_eq(self.codecs[i].name.as_slice(), name) {
                return Some(&self.codecs[i].kind);
            }
        }
        proof {
            assert(self.kinds().take(0) =~= Seq::<(Seq<u8>, CodecKind)>::empty());
        }
        None
    }

    /// The registrations, in order, for listing transforms.
    pub fn codecs_iter(&self) -> (r: &Vec<RegEntry>)
        ensures
            r@.len() == self.kinds().len(),
            forall|i: int|
                0 <= i < r@.len() ==> (#[trigger] r@[i]).name@ == self.kinds()[i].0 && r@[i].kind
                    == self.kinds()[i].1,
    {
        &self.codecs
    }
}


/// The built-in registrations, in the listing order a reader of the
/// `usage` stage sees: alphabetical.
pub open spec fn builtin_kinds() -> Seq<(Seq<u8>, CodecKind)> {
    seq![
        ("aes-cbc".spec_bytes(), CodecKind::Aes(AesCodec { mode: BlockCipherMode::Cbc, cipher_type: BlockCipherType::Aes })),
        ("aes-ecb".spec_bytes(), CodecKind::Aes(AesCodec { mode: BlockCipherMode::Ecb, cipher_type: BlockCipherType::Aes })),
        ("append".spec_bytes(), CodecKind::Append(AppendCodecs)),
        ("base64".spec_bytes(), CodecKind::Base64(Base64Codec)),
        ("cat".spec_bytes(), CodecKind::Cat(CatCodecs)),
        ("const".spec_bytes(), CodecKind::Const(ConstCodecs(IdCodecs(RepeatCodecs)))),
        ("drop".spec_bytes(), CodecKind::Drop(DropCodecs)),
        ("escape".spec_bytes(), CodecKind::Escape(EscapeCodec)),
        ("hex".spec_bytes(), CodecKind::Hex(HexCodec)),
        ("id".spec_bytes(), CodecKind::Id(IdCodecs(RepeatCodecs))),
        ("md5".spec_bytes(), CodecKind::Hash(HashCodec { hash_type: HashType::Md5 })),
        ("newline".spec_bytes(), CodecKind::NewLine(NewLineCodecs(AppendCodecs))),
        ("redirect".spec_bytes(), CodecKind::Redirect(RedirectCodecs(TeeCodecs))),
        ("repeat".spec_bytes(), CodecKind::Repeat(RepeatCodecs)),
        ("sha256".spec_bytes(), CodecKind::Hash(HashCodec { hash_type: HashType::Sha256 })),
        ("sink".spec_bytes(), CodecKind::Sink(SinkCodecs(TeeCodecs))),
        ("sm3".spec_bytes(), CodecKind::Hash(HashCodec { hash_type: HashType::Sm3 })),
        ("sm4-cbc".spec_bytes(), CodecKind::Sm4(Sm4Codec(AesCodec { mode: BlockCipherMode::Cbc, cipher_type: BlockCipherType::Sm4 }))),
        ("sm4-ecb".spec_bytes(), CodecKind::Sm4(Sm4Codec(AesCodec { mode: BlockCipherMode::Ecb, cipher_type: BlockCipherType::Sm4 }))),
        ("take".spec_bytes(), CodecKind::Take(TakeCodecs)),
        ("tee".spec_bytes(), CodecKind::Tee(TeeCodecs)),
        ("url".spec_bytes(), CodecKind::Url(UrlCodec)),
        ("usage".spec_bytes(), CodecKind::Usage(UsageMetaCodec)),
        ("zlib".spec_bytes(), CodecKind::Zlib(ZlibCodec)),
    ]
}

/// Builds the registry of every built-in transform, registered in the
/// alphabetical order the listing shows. The process-spawning stage
/// and the RSA stages are not here: their runs depend on more than
/// their inputs, which the deterministic transform contract cannot
/// hold, so a driver wires them natively around the engine — and a
/// sub-pipeline naming one of them reports a lookup error.
pub fn load_builtins() -> (r: CodecMetaInfo)
    ensures
        r.kinds() == builtin_kinds(),
{
    let mut m = CodecMetaInfo::new();
    m.register("aes-cbc".as_bytes(), CodecKind::Aes(AesCodec::new_cbc()));
    m.register("aes-ecb".as_bytes(), CodecKind::Aes(AesCodec::new_ecb()));
    m.register("append".as_bytes(), CodecKind::Append(AppendCodecs));
    m.register("base64".as_bytes(), CodecKind::Base64(Base64Codec));
    m.register("cat".as_bytes(), CodecKind::Cat(CatCodecs));
    m.register("const".as_bytes(), CodecKind::Const(ConstCodecs(IdCodecs(RepeatCodecs))));
    m.register("drop".as_bytes(), CodecKind::Drop(DropCodecs));
    m.register("escape".as_bytes(), CodecKind::Escape(EscapeCodec));
    m.register("hex".as_bytes(), CodecKind::Hex(HexCodec));
    m.register("id".as_bytes(), CodecKind::Id(IdCodecs(RepeatCodecs)));
    m.register("md5".as_bytes(), CodecKind::Hash(HashCodec::new_md5()));
    m.register("newline".as_bytes(), CodecKind::NewLine(NewLineCodecs(AppendCodecs)));
    m.register("redirect".as_bytes(), CodecKind::Redirect(RedirectCodecs(TeeCodecs)));
    m.register("repeat".as_bytes(), CodecKind::Repeat(RepeatCodecs));
    m.register("sha256".as_bytes(), CodecKind::Hash(HashCodec::new_sha256()));
    m.register("sink".as_bytes(), CodecKind::Sink(SinkCodecs(TeeCodecs)));
    m.register("sm3".as_bytes(), CodecKind::Hash(HashCodec::new_sm3()));
    m.register("sm4-cbc".as_bytes(), CodecKind::Sm4(Sm4Codec::new_cbc()));
    m.register("sm4-ecb".as_bytes(), CodecKind::Sm4(Sm4Codec::new_ecb()));
    m.register("take".as_bytes(), CodecKind::Take(TakeCodecs));
    m.register("tee".as_bytes(), CodecKind::Tee(TeeCodecs));
    m.register("url".as_bytes(), CodecKind::Url(UrlCodec));
    m.register_meta("usage".as_bytes(), UsageMetaCodec);
    m.register("zlib".as_bytes(), CodecKind::Zlib(ZlibCodec));
    proof {
        assert(m.kinds() =~= builtin_kinds());
    }
    m
}


/// The position `k` witnesses `a` before `b`: they agree up to `k` and
/// diverge there, either because `a` ends or on a smaller byte.
pub open spec fn lt_witness(a: Seq<u8>, b: Seq<u8>, k: int) -> bool {
    &&& 0 <= k <= a.len()
    &&& k <= b.len()
    &&& a.take(k) == b.take(k)
    &&& (if k == a.len() {
        a.len() < b.len()
    } else {
        k < b.len() && a[k] < b[k]
    })
}

/// Strict lexicographic order on byte strings.
pub open spec fn bytes_lt(a: Seq<u8>, b: Seq<u8>) -> bool {
    exists|k: int| lt_witness(a, b, k)
}

/// Each registration's name comes strictly before the next one's:
/// ascending, and therefore unique.
pub open spec fn reg_names_ascending(reg: Seq<(Seq<u8>, CodecKind)>) -> bool {
    forall|i: int| 0 <= i && i + 1 < reg.len() ==> bytes_lt((#[trigger] reg[i]).0, reg[i + 1].0)
}

/// The built-in registry lists its names in strictly ascending
/// lexicographic order — the order the name-to-instance map iterates
/// in, which the usage listing shows — so each name appears once.
pub proof fn lemma_builtins_ascending()
    ensures
        reg_names_ascending(builtin_kinds()),
{
    broadcast use vstd::string::is_ascii_spec_bytes;

    reveal_strlit("aes-cbc");
    reveal_strlit("aes-ecb");
    reveal_strlit("append");
    reveal_strlit("base64");
    reveal_strlit("cat");
    reveal_strlit("const");
    reveal_strlit("drop");
    reveal_strlit("escape");
    reveal_strlit("hex");
    reveal_strlit("id");
    reveal_strlit("md5");
    reveal_strlit("newline");
    reveal_strlit("redirect");
    reveal_strlit("repeat");
    reveal_strlit("sha256");
    reveal_strlit("sink");
    reveal_strlit("sm3");
    reveal_strlit("sm4-cbc");
    reveal_strlit("sm4-ecb");
    reveal_strlit("take");
    reveal_strlit("tee");
    reveal_strlit("url");
    reveal_strlit("usage");
    reveal_strlit("zlib");
    assert(vstd::string::is_ascii("aes-cbc"));
    assert(vstd::string::is_ascii("aes-ecb"));
    assert(vstd::string::is_ascii("append"));
    assert(vstd::string::is_ascii("base64"));
    assert(vstd::string::is_ascii("cat"));
    assert(vstd::string::is_ascii("const"));
    assert(vstd::string::is_ascii("drop"));
    assert(vstd::string::is_ascii("escape"));
    assert(vstd::string::is_ascii("hex"));
    assert(vstd::string::is_ascii("id"));
    assert(vstd::string::is_ascii("md5"));
    assert(vstd::string::is_ascii("newline"));
    assert(vstd::string::is_ascii("redirect"));
    assert(vstd::string::is_ascii("repeat"));
    assert(vstd::string::is_ascii("sha256"));
    assert(vstd::string::is_ascii("sink"));
    assert(vstd::string::is_ascii("sm3"));
    assert(vstd::string::is_ascii("sm4-cbc"));
    assert(vstd::string::is_ascii("sm4-ecb"));
    assert(vstd::string::is_ascii("take"));
    assert(vstd::string::is_ascii("tee"));
    assert(vstd::string::is_ascii("url"));
    assert(vstd::string::is_ascii("usage"));
    assert(vstd::string::is_ascii("zlib"));
    assert(bytes_lt("aes-cbc".spec_bytes(), "aes-ecb".spec_bytes())) by {
        assert("aes-cbc".spec_bytes()[0] == "aes-ecb".spec_bytes()[0]);
        assert("aes-cbc".spec_bytes()[1] == "aes-ecb".spec_bytes()[1]);
        assert("aes-cbc".spec_bytes()[2] == "aes-ecb".spec_bytes()[2]);
        assert("aes-cbc".spec_bytes()[3] == "aes-ecb".spec_bytes()[3]);
        assert("aes-cbc".spec_bytes().take(4) =~= "aes-ecb".spec_bytes().take(4));
        assert("aes-cbc".spec_bytes()[4] < "aes-ecb".spec_bytes()[4]);
        assert(lt_witness("aes-cbc".spec_bytes(), "aes-ecb".spec_bytes(), 4));
    }
    assert(bytes_lt("aes-ecb".spec_bytes(), "append".spec_bytes())) by {
        assert("aes-ecb".spec_bytes()[0] == "append".spec_bytes()[0]);
        assert("aes-ecb".spec_bytes().take(1) =~= "append".spec_bytes().take(1));
        assert("aes-ecb".spec_bytes()[1] < "append".spec_bytes()[1]);
        assert(lt_witness("aes-ecb".spec_bytes(), "append".spec_bytes(), 1));
    }
    assert(bytes_lt("append".spec_bytes(), "base64".spec_bytes())) by {

        assert("append".spec_bytes().take(0) =~= "base64".spec_bytes().take(0));
        assert("append".spec_bytes()[0] < "base64".spec_bytes()[0]);
        assert(lt_witness("append".spec_bytes(), "base64".spec_bytes(), 0));
    }
    assert(bytes_lt("base64".spec_bytes(), "cat".spec_bytes())) by {

        assert("base64".spec_bytes().take(0) =~= "cat".spec_bytes().take(0));
        assert("base64".spec_bytes()[0] < "cat".spec_bytes()[0]);
        assert(lt_witness("base64".spec_bytes(), "cat".spec_bytes(), 0));
    }
    assert(bytes_lt("cat".spec_bytes(), "const".spec_bytes())) by {
        assert("cat".spec_bytes()[0] == "const".spec_bytes()[0]);
        assert("cat".spec_bytes().take(1) =~= "const".spec_bytes().take(1));
        assert("cat".spec_bytes()[1] < "const".spec_bytes()[1]);
        assert(lt_witness("cat".spec_bytes(), "const".spec_bytes(), 1));
    }
    assert(bytes_lt("const".spec_bytes(), "drop".spec_bytes())) by {

        assert("const".spec_bytes().take(0) =~= "drop".spec_bytes().take(0));
        assert("const".spec_bytes()[0] < "drop".spec_bytes()[0]);
        assert(lt_witness("const".spec_bytes(), "drop".spec_bytes(), 0));
    }
    assert(bytes_lt("drop".spec_bytes(), "escape".spec_bytes())) by {

        assert("drop".spec_bytes().take(0) =~= "escape".spec_bytes().take(0));
        assert("drop".spec_bytes()[0] < "escape".spec_bytes()[0]);
        assert(lt_witness("drop".spec_bytes(), "escape".spec_bytes(), 0));
    }
    assert(bytes_lt("escape".spec_bytes(), "hex".spec_bytes())) by {

        assert("escape".spec_bytes().take(0) =~= "hex".spec_bytes().take(0));
        assert("escape".spec_bytes()[0] < "hex".spec_bytes()[0]);
        assert(lt_witness("escape".spec_bytes(), "hex".spec_bytes(), 0));
    }
    assert(bytes_lt("hex".spec_bytes(), "id".spec_bytes())) by {

        assert("hex".spec_bytes().take(0) =~= "id".spec_bytes().take(0));
        assert("hex".spec_bytes()[0] < "id".spec_bytes()[0]);
        assert(lt_witness("hex".spec_bytes(), "id".spec_bytes(), 0));
    }
    assert(bytes_lt("id".spec_bytes(), "md5".spec_bytes())) by {

        assert("id".spec_bytes().take(0) =~= "md5".spec_bytes().take(0));
        assert("id".spec_bytes()[0] < "md5".spec_bytes()[0]);
        assert(lt_witness("id".spec_bytes(), "md5".spec_bytes(), 0));
    }
    assert(bytes_lt("md5".spec_bytes(), "newline".spec_bytes())) by {

        assert("md5".spec_bytes().take(0) =~= "newline".spec_bytes().take(0));
        assert("md5".spec_bytes()[0] < "newline".spec_bytes()[0]);
        assert(lt_witness("md5".spec_bytes(), "newline".spec_bytes(), 0));
    }
    assert(bytes_lt("newline".spec_bytes(), "redirect".spec_bytes())) by {

        assert("newline".spec_bytes().take(0) =~= "redirect".spec_bytes().take(0));
        assert("newline".spec_bytes()[0] < "redirect".spec_bytes()[0]);
        assert(lt_witness("newline".spec_bytes(), "redirect".spec_bytes(), 0));
    }
    assert(bytes_lt("redirect".spec_bytes(), "repeat".spec_bytes())) by {
        assert("redirect".spec_bytes()[0] == "repeat".spec_bytes()[0]);
        assert("redirect".spec_bytes()[1] == "repeat".spec_bytes()[1]);
        assert("redirect".spec_bytes().take(2) =~= "repeat".spec_bytes().take(2));
        assert("redirect".spec_bytes()[2] < "repeat".spec_bytes()[2]);
        assert(lt_witness("redirect".spec_bytes(), "repeat".spec_bytes(), 2));
    }
    assert(bytes_lt("repeat".spec_bytes(), "sha256".spec_bytes())) by {

        assert("repeat".spec_bytes().take(0) =~= "sha256".spec_bytes().take(0));
        assert("repeat".spec_bytes()[0] < "sha256".spec_bytes()[0]);
        assert(lt_witness("repeat".spec_bytes(), "sha256".spec_bytes(), 0));
    }
    assert(bytes_lt("sha256".spec_bytes(), "sink".spec_bytes())) by {
        assert("sha256".spec_bytes()[0] == "sink".spec_bytes()[0]);
        assert("sha256".spec_bytes().take(1) =~= "sink".spec_bytes().take(1));
        assert("sha256".spec_bytes()[1] < "sink".spec_bytes()[1]);
        assert(lt_witness("sha256".spec_bytes(), "sink".spec_bytes(), 1));
    }
    assert(bytes_lt("sink".spec_bytes(), "sm3".spec_bytes())) by {
        assert("sink".spec_bytes()[0] == "sm3".spec_bytes()[0]);
        assert("sink".spec_bytes().take(1) =~= "sm3".spec_bytes().take(1));
        assert("sink".spec_bytes()[1] < "sm3".spec_bytes()[1]);
        assert(lt_witness("sink".spec_bytes(), "sm3".spec_bytes(), 1));
    }
    assert(bytes_lt("sm3".spec_bytes(), "sm4-cbc".spec_bytes())) by {
        assert("sm3".spec_bytes()[0] == "sm4-cbc".spec_bytes()[0]);
        assert("sm3".spec_bytes()[1] == "sm4-cbc".spec_bytes()[1]);
        assert("sm3".spec_bytes().take(2) =~= "sm4-cbc".spec_bytes().take(2));
        assert("sm3".spec_bytes()[2] < "sm4-cbc".spec_bytes()[2]);
        assert(lt_witness("sm3".spec_bytes(), "sm4-cbc".spec_bytes(), 2));
    }
    assert(bytes_lt("sm4-cbc".spec_bytes(), "sm4-ecb".spec_bytes())) by {
        assert("sm4-cbc".spec_bytes()[0] == "sm4-ecb".spec_bytes()[0]);
        assert("sm4-cbc".spec_bytes()[1] == "sm4-ecb".spec_bytes()[1]);
        assert("sm4-cbc".spec_bytes()[2] == "sm4-ecb".spec_bytes()[2]);
        assert("sm4-cbc".spec_bytes()[3] == "sm4-ecb".spec_bytes()[3]);
        assert("sm4-cbc".spec_bytes().take(4) =~= "sm4-ecb".spec_bytes().take(4));
        assert("sm4-cbc".spec_bytes()[4] < "sm4-ecb".spec_bytes()[4]);
        assert(lt_witness("sm4-cbc".spec_bytes(), "sm4-ecb".spec_bytes(), 4));
    }
    assert(bytes_lt("sm4-ecb".spec_bytes(), "take".spec_bytes())) by {

        assert("sm4-ecb".spec_bytes().take(0) =~= "take".spec_bytes().take(0));
        assert("sm4-ecb".spec_bytes()[0] < "take".spec_bytes()[0]);
        assert(lt_witness("sm4-ecb".spec_bytes(), "take".spec_bytes(), 0));
    }
    assert(bytes_lt("take".spec_bytes(), "tee".spec_bytes())) by {
        assert("take".spec_bytes()[0] == "tee".spec_bytes()[0]);
        assert("take".spec_bytes().take(1) =~= "tee".spec_bytes().take(1));
        assert("take".spec_bytes()[1] < "tee".spec_bytes()[1]);
        assert(lt_witness("take".spec_bytes(), "tee".spec_bytes(), 1));
    }
    assert(bytes_lt("tee".spec_bytes(), "url".spec_bytes())) by {

        assert("tee".spec_bytes().take(0) =~= "url".spec_bytes().take(0));
        assert("tee".spec_bytes()[0] < "url".spec_bytes()[0]);
        assert(lt_witness("tee".spec_bytes(), "url".spec_bytes(), 0));
    }
    assert(bytes_lt("url".spec_bytes(), "usage".spec_bytes())) by {
        assert("url".spec_bytes()[0] == "usage".spec_bytes()[0]);
        assert("url".spec_bytes().take(1) =~= "usage".spec_bytes().take(1));
        assert("url".spec_bytes()[1] < "usage".spec_bytes()[1]);
        assert(lt_witness("url".spec_bytes(), "usage".spec_bytes(), 1));
    }
    assert(bytes_lt("usage".spec_bytes(), "zlib".spec_bytes())) by {

        assert("usage".spec_bytes().take(0) =~= "zlib".spec_bytes().take(0));
        assert("usage".spec_bytes()[0] < "zlib".spec_bytes()[0]);
        assert(lt_witness("usage".spec_bytes(), "zlib".spec_bytes(), 0));
    }
    assert forall|i: int| 0 <= i && i + 1 < builtin_kinds().len() implies bytes_lt(
        (#[trigger] builtin_kinds()[i]).0,
        builtin_kinds()[i + 1].0,
    ) by {
        if i == 0 {
            assert(builtin_kinds()[0].0 == "aes-cbc".spec_bytes());
            assert(builtin_kinds()[1].0 == "aes-ecb".spec_bytes());
        } else if i == 1 {
            assert(builtin_kinds()[1].0 == "aes-ecb".spec_bytes());
            assert(builtin_kinds()[2].0 == "append".spec_bytes());
        } else if i == 2 {
            assert(builtin_kinds()[2].0 == "append".spec_bytes());
            assert(builtin_kinds()[3].0 == "base64".spec_bytes());
        } else if i == 3 {
            assert(builtin_kinds()[3].0 == "base64".spec_bytes());
            assert(builtin_kinds()[4].0 == "cat".spec_bytes());
        } else if i == 4 {
            assert(builtin_kinds()[4].0 == "cat".spec_bytes());
            assert(builtin_kinds()[5].0 == "const".spec_bytes());
        } else if i == 5 {
            assert(builtin_kinds()[5].0 == "const".spec_bytes());
            assert(builtin_kinds()[6].0 == "drop".spec_bytes());
        } else if i == 6 {
            assert(builtin_kinds()[6].0 == "drop".spec_bytes());
            assert(builtin_kinds()[7].0 == "escape".spec_bytes());
        } else if i == 7 {
            assert(builtin_kinds()[7].0 == "escape".spec_bytes());
            assert(builtin_kinds()[8].0 == "hex".spec_bytes());
        } else if i == 8 {
            assert(builtin_kinds()[8].0 == "hex".spec_bytes());
            assert(builtin_kinds()[9].0 == "id".spec_bytes());
        } else if i == 9 {
            assert(builtin_kinds()[9].0 == "id".spec_bytes());
            assert(builtin_kinds()[10].0 == "md5".spec_bytes());
        } else if i == 10 {
            assert(builtin_kinds()[10].0 == "md5".spec_bytes());
            assert(builtin_kinds()[11].0 == "newline".spec_bytes());
        } else if i == 11 {
            assert(builtin_kinds()[11].0 == "newline".spec_bytes());
            assert(builtin_kinds()[12].0 == "redirect".spec_bytes());
        } else if i == 12 {
            assert(builtin_kinds()[12].0 == "redirect".spec_bytes());
            assert(builtin_kinds()[13].0 == "repeat".spec_bytes());
        } else if i == 13 {
            assert(builtin_kinds()[13].0 == "repeat".spec_bytes());
            assert(builtin_kinds()[14].0 == "sha256".spec_bytes());
        } else if i == 14 {
            assert(builtin_kinds()[14].0 == "sha256".spec_bytes());
            assert(builtin_kinds()[15].0 == "sink".spec_bytes());
        } else if i == 15 {
            assert(builtin_kinds()[15].0 == "sink".spec_bytes());
            assert(builtin_kinds()[16].0 == "sm3".spec_bytes());
        } else if i == 16 {
            assert(builtin_kinds()[16].0 == "sm3".spec_bytes());
            assert(builtin_kinds()[17].0 == "sm4-cbc".spec_bytes());
        } else if i == 17 {
            assert(builtin_kinds()[17].0 == "sm4-cbc".spec_bytes());
            assert(builtin_kinds()[18].0 == "sm4-ecb".spec_bytes());
        } else if i == 18 {
            assert(builtin_kinds()[18].0 == "sm4-ecb".spec_bytes());
            assert(builtin_kinds()[19].0 == "take".spec_bytes());
        } else if i == 19 {
            assert(builtin_kinds()[19].0 == "take".spec_bytes());
            assert(builtin_kinds()[20].0 == "tee".spec_bytes());
        } else if i == 20 {
            assert(builtin_kinds()[20].0 == "tee".spec_bytes());
            assert(builtin_kinds()[21].0 == "url".spec_bytes());
        } else if i == 21 {
            assert(builtin_kinds()[21].0 == "url".spec_bytes());
            assert(builtin_kinds()[22].0 == "usage".spec_bytes());
        } else if i == 22 {
            assert(builtin_kinds()[22].0 == "usage".spec_bytes());
            assert(builtin_kinds()[23].0 == "zlib".spec_bytes());
        }
    }
}


/// A name strictly before another is not that name.
pub proof fn lemma_bytes_lt_ne(a: Seq<u8>, b: Seq<u8>)
    requires
        bytes_lt(a, b),
    ensures
        a != b,
{
    let k = choose|k: int| lt_witness(a, b, k);
    if a == b {
        if k == a.len() {
            assert(a.len() < b.len());
        } else {
            assert(a[k] < b[k]);
        }
    }
}

/// Lexicographic order chains: what comes before `b` comes before
/// whatever `b` comes before.
pub proof fn lemma_bytes_lt_trans(a: Seq<u8>, b: Seq<u8>, c: Seq<u8>)
    requires
        bytes_lt(a, b),
        bytes_lt(b, c),
    ensures
        bytes_lt(a, c),
{
    let k1 = choose|k: int| lt_witness(a, b, k);
    let k2 = choose|k: int| lt_witness(b, c, k);
    if k1 < k2 {
        assert(a.take(k1) =~= b.take(k2).take(k1));
        assert(c.take(k2).take(k1) =~= c.take(k1));
        assert(a.take(k1) == c.take(k1));
        if k1 == a.len() {
            assert(a.len() < c.len());
        } else {
            assert(a[k1] < b[k1]);
            assert(b.take(k2)[k1] == c.take(k2)[k1]);
            assert(a[k1] < c[k1]);
        }
        assert(lt_witness(a, c, k1));
    } else if k2 < k1 {
        assert(k2 < b.len());
        assert(b[k2] < c[k2]);
        assert(a.take(k1).take(k2) =~= a.take(k2));
        assert(b.take(k1).take(k2) =~= b.take(k2));
        assert(a.take(k2) == c.take(k2));
        assert(a.take(k1)[k2] == b.take(k1)[k2]);
        assert(a[k2] == b[k2]);
        assert(a[k2] < c[k2]);
        assert(lt_witness(a, c, k2));
    } else {
        let k = k1;
        assert(a.take(k) == c.take(k));
        if k == a.len() {
            assert(k < b.len());
            assert(b[k] < c[k]);
            assert(k < c.len());
            assert(a.len() < c.len());
            assert(lt_witness(a, c, k));
        } else {
            assert(a[k] < b[k]);
            assert(k < b.len());
            assert(b[k] < c[k]);
            assert(a[k] < c[k]);
            assert(lt_witness(a, c, k));
        }
    }
}

/// In an ascending registry every earlier name comes strictly before
/// every later one, not only its neighbour.
pub proof fn lemma_ascending_pairwise(reg: Seq<(Seq<u8>, CodecKind)>, i: int, j: int)
    requires
        reg_names_ascending(reg),
        0 <= i < j < reg.len(),
    ensures
        bytes_lt(reg[i].0, reg[j].0),
    decreases j - i,
{
    if j == i + 1 {
    } else {
        lemma_ascending_pairwise(reg, i, j - 1);
        lemma_bytes_lt_trans(reg[i].0, reg[j - 1].0, reg[j].0);
    }
}

/// Each built-in name appears exactly once: the listing's names are
/// pairwise distinct.
pub proof fn lemma_builtin_names_unique()
    ensures
        forall|i: int, j: int|
            0 <= i < j < builtin_kinds().len() ==> (#[trigger] builtin_kinds()[i]).0 != (
            #[trigger] builtin_kinds()[j]).0,
{
    lemma_builtins_ascending();
    assert forall|i: int, j: int|
        0 <= i < j < builtin_kinds().len() implies (#[trigger] builtin_kinds()[i]).0 != (
    #[trigger] builtin_kinds()[j]).0 by {
        lemma_ascending_pairwise(builtin_kinds(), i, j);
        lemma_bytes_lt_ne(builtin_kinds()[i].0, builtin_kinds()[j].0);
    }
}

} // verus!
