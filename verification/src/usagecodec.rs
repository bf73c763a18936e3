//! The meta transform that lists registered names and their usage
//! texts. It reads the registry it was found in; the engine passes the
//! registry in rather than special-casing it.

use vstd::prelude::*;

use crate::CodecMode;
use crate::bytes::{byte_name, push_bytes, bytes_eq, B_NEWLINE};
use crate::codec_trait::{Codec, MetaCodec};
use crate::errors::{CodecError, ErrModel};
use crate::filestore::FileStore;
use crate::options::Options;
use crate::registry::CodecMetaInfo;
use vstd::string::{StringSliceAdditionalSpecFns, StrSliceExecFns};
use vstd::utf8::encode_utf8;

verus! {

pub const N_UPPER_C: u8 = 67;

/// The last registration of a name in a listing, with its usage text.
pub open spec fn sp_usage_lookup(reg: Seq<(Seq<u8>, Option<Seq<char>>)>, name: Seq<u8>) -> Option<
    Option<Seq<char>>,
>
    decreases reg.len(),
{
    if reg.len() == 0 {
        None
    } else if reg.last().0 == name {
        Some(reg.last().1)
    } else {
        sp_usage_lookup(reg.drop_last(), name)
    }
}

/// One listing entry: the name, a newline, then the usage text and a
/// newline when there is one.
pub open spec fn sp_entry_bytes(name: Seq<u8>, u: Option<Seq<char>>) -> Seq<u8> {
    name + seq![B_NEWLINE] + (match u {
        Some(t) => encode_utf8(t) + seq![B_NEWLINE],
        None => Seq::<u8>::empty(),
    })
}

/// All listing entries, in registration order.
pub open spec fn sp_listing_bytes(reg: Seq<(Seq<u8>, Option<Seq<char>>)>) -> Seq<u8>
    decreases reg.len(),
{
    if reg.len() == 0 {
        Seq::empty()
    } else {
        sp_entry_bytes(reg[0].0, reg[0].1) + sp_listing_bytes(reg.subrange(1, reg.len() as int))
    }
}

proof fn lemma_listing_snoc(reg: Seq<(Seq<u8>, Option<Seq<char>>)>, i: int)
    requires
        0 <= i < reg.len(),
    ensures
        sp_listing_bytes(reg.take(i + 1)) == sp_listing_bytes(reg.take(i)) + sp_entry_bytes(
            reg[i].0,
            reg[i].1,
        ),
    decreases i,
{
    let a = reg.take(i + 1);
    let b = reg.take(i);
    if i == 0 {
        assert(a.subrange(1, a.len() as int) =~= Seq::<(Seq<u8>, Option<Seq<char>>)>::empty());
        assert(a[0] == reg[0]);
        assert(sp_listing_bytes(b) =~= Seq::<u8>::empty());
        assert(sp_listing_bytes(a) == sp_entry_bytes(a[0].0, a[0].1) + sp_listing_bytes(
            a.subrange(1, a.len() as int),
        ));
        assert(sp_listing_bytes(a) =~= sp_listing_bytes(b) + sp_entry_bytes(reg[i].0, reg[i].1));
    } else {
        let reg1 = reg.subrange(1, reg.len() as int);
        lemma_listing_snoc(reg1, i - 1);
        assert(a.subrange(1, a.len() as int) =~= reg1.take(i));
        assert(b.subrange(1, b.len() as int) =~= reg1.take(i - 1));
        assert(reg1[i - 1] == reg[i]);
        assert(a[0] == reg[0] && b[0] == reg[0]);
        assert(sp_listing_bytes(a) == sp_entry_bytes(a[0].0, a[0].1) + sp_listing_bytes(
            reg1.take(i),
        ));
        assert(sp_listing_bytes(b) == sp_entry_bytes(b[0].0, b[0].1) + sp_listing_bytes(
            reg1.take(i - 1),
        ));
        assert(sp_listing_bytes(a) =~= sp_listing_bytes(b) + sp_entry_bytes(reg[i].0, reg[i].1));
    }
}

/// Lists one registered transform, or all of them.
#[derive(Default)]
pub struct UsageMetaCodec;

impl MetaCodec for UsageMetaCodec {
    open spec fn spec_run_meta(
        &self,
        input: Seq<u8>,
        mode: CodecMode,
        opts: Map<Seq<u8>, Option<Seq<u8>>>,
        reg: Seq<(Seq<u8>, Option<Seq<char>>)>,
    ) -> Result<Seq<u8>, ErrModel> {
        if opts.contains_key(seq![N_UPPER_C]) && opts[seq![N_UPPER_C]] is Some {
            let name = opts[seq![N_UPPER_C]]->0;
            match sp_usage_lookup(reg, name) {
                None => Err(ErrModel::Lookup(name)),
                Some(u) => Ok(sp_entry_bytes(name, u)),
            }
        } else {
            Ok("Available codecs:".spec_bytes() + seq![B_NEWLINE] + sp_listing_bytes(reg))
        }
    }

    fn run_meta_codec(
        &self,
        input: &Vec<u8>,
        mode: CodecMode,
        options: &Options,
        codec_meta_info: &CodecMetaInfo,
    ) -> (r: Result<Vec<u8>, CodecError>) {
        let c_name = byte_name(N_UPPER_C);
        match options.get_text_raw(c_name.as_slice()) {
            Some(name) => {
                let entries = codec_meta_info.codecs_iter();
                let ghost listing = codec_meta_info.listing();
                let mut i: usize = entries.len();
                proof {
                    assert(listing.take(i as int) =~= listing);
                }
                while i > 0
                    invariant
                        entries@.len() == listing.len(),
                        forall|k: int|
                            0 <= k < listing.len() ==> (#[trigger] entries@[k]).name@
                                == listing[k].0 && entries@[k].kind.spec_usage_of()
                                == listing[k].1,
                        i <= listing.len(),
                        options@.contains_key(seq![N_UPPER_C]),
                        options@[seq![N_UPPER_C]] == Some(name@),
                        listing == codec_meta_info.listing(),
                        sp_usage_lookup(listing, name@) == sp_usage_lookup(
                            listing.take(i as int),
                            name@,
                        ),
                    decreases i,
                {
                    i -= 1;
                    proof {
                        assert(listing.take(i + 1 as int).last() == listing[i as int]);
                        assert(listing.take(i + 1 as int).drop_last() =~= listing.take(i as int));
                    }
                    if bytes_eq(entries[i].name.as_slice(), name.as_slice()) {
                        let mut out: Vec<u8> = Vec::new();
                        push_bytes(&mut out, name.as_slice());
                        out.push(B_NEWLINE);
                        match entries[i].kind.usage_text() {
                            Some(u) => {
                                let ub = u.as_str().as_bytes_vec();
                                push_bytes(&mut out, ub.as_slice());
                                out.push(B_NEWLINE);
                                proof {
                                    assert(out@ =~= sp_entry_bytes(
                                        name@,
                                        entries@[i as int].kind.spec_usage_of(),
                                    ));
                                }
                            },
                            None => {
                                proof {
                                    assert(out@ =~= sp_entry_bytes(
                                        name@,
                                        entries@[i as int].kind.spec_usage_of(),
                                    ));
                                }
                            },
                        }
                        return Ok(out);
                    }
                }
                proof {
                    assert(listing.take(0) =~= Seq::<(Seq<u8>, Option<Seq<char>>)>::empty());
                }
                Err(CodecError::Lookup(name))
            },
            None => {
                let entries = codec_meta_info.codecs_iter();
                let ghost listing = codec_meta_info.listing();
                let mut out: Vec<u8> = Vec::new();
                push_bytes(&mut out, "Available codecs:".as_bytes());
                out.push(B_NEWLINE);
                let ghost head = out@;
                let mut i: usize = 0;
                while i < entries.len()
                    invariant
                        entries@.len() == listing.len(),
                        forall|k: int|
                            0 <= k < listing.len() ==> (#[trigger] entries@[k]).name@
                                == listing[k].0 && entries@[k].kind.spec_usage_of()
                                == listing[k].1,
                        0 <= i <= listing.len(),
                        head == "Available codecs:".spec_bytes() + seq![B_NEWLINE],
                        out@ == head + sp_listing_bytes(listing.take(i as int)),
                    decreases entries@.len() - i,
                {
                    let ghost out_pre = out@;
                    push_bytes(&mut out, entries[i].name.as_slice());
                    out.push(B_NEWLINE);
                    match entries[i].kind.usage_text() {
                        Some(u) => {
                            let ub = u.as_str().as_bytes_vec();
                            push_bytes(&mut out, ub.as_slice());
                            out.push(B_NEWLINE);
                        },
                        None => {},
                    }
                    proof {
                        assert(out@ =~= out_pre + sp_entry_bytes(
                            listing[i as int].0,
                            listing[i as int].1,
                        ));
                        lemma_listing_snoc(listing, i as int);
                        assert(out@ =~= head + sp_listing_bytes(listing.take(i + 1 as int)));
                    }
                    i += 1;
                }
                proof {
                    assert(listing.take(listing.len() as int) =~= listing);
                }
                Ok(out)
            },
        }
    }
}

impl Codec for UsageMetaCodec {
    open spec fn spec_run(
        &self,
        input: Seq<u8>,
        mode: CodecMode,
        opts: Map<Seq<u8>, Option<Seq<u8>>>,
        reg: Seq<(Seq<u8>, Option<Seq<char>>)>,
        store: Map<Seq<u8>, Seq<u8>>,
    ) -> Result<(Seq<u8>, Map<Seq<u8>, Seq<u8>>), ErrModel> {
        match self.spec_run_meta(input, mode, opts, reg) {
            Ok(o) => Ok((o, store)),
            Err(e) => Err(e),
        }
    }

    fn run_codec(
        &self,
        input: &Vec<u8>,
        mode: CodecMode,
        options: &Options,
        info: &CodecMetaInfo,
        store: &mut FileStore,
    ) -> (r: Result<Vec<u8>, CodecError>) {
        self.run_meta_codec(input, mode, options, info)
    }
}

} // verus!
