//! URL percent-escaping, implemented and verified here in full: each
//! byte either passes, becomes `+` (the space, in query mode), or
//! becomes `%` and two capital hex digits; decoding undoes any `%` that
//! two hex digits follow and passes everything else through, so query
//! escaping round-trips on space-free input and path escaping on all
//! input.

use vstd::prelude::*;

use crate::CodecMode;
use crate::adapters::{BytesToBytesDecoder, BytesToBytesEncoder, ChunkMapping, sp_drain};
use crate::bytes::{byte_name, copy_bytes, sub_bytes, B_PERCENT, B_PLUS, B_SPACE};
use crate::codec_trait::{Codec, CodecUsage};
use crate::errors::{CodecError, ErrModel};
use crate::filestore::FileStore;
use crate::hexcodec::{hex_char, hex_val};
use crate::options::Options;
use crate::registry::CodecMetaInfo;
use vstd::string::StringExecFns;

verus! {

pub const N_LOWER_P: u8 = 112;

/// Letters and digits pass both escapings.
pub open spec fn is_alnum(b: u8) -> bool {
    (48 <= b && b <= 57) || (65 <= b && b <= 90) || (97 <= b && b <= 122)
}

/// Whether query escaping rewrites this byte (space aside, which
/// becomes `+`): everything but letters, digits and `-`, `.`, `_`, `~`.
pub open spec fn query_escapes(b: u8) -> bool {
    !(is_alnum(b) || b == 45 || b == 46 || b == 95 || b == 126)
}

/// Whether path escaping rewrites this byte: controls, non-ASCII, and
/// the reserved path set.
pub open spec fn path_escapes(b: u8) -> bool {
    b < 32 || b >= 127 || b == 37 || b == 33 || b == 39 || b == 40 || b == 41 || b == 42 || b == 44
        || b == 47 || b == 59 || b == 91 || b == 92 || b == 93 || b == 94 || b == 124 || b == 32
        || b == 34 || b == 35 || b == 60 || b == 62 || b == 63 || b == 96 || b == 123 || b == 125
}

/// The escape of one byte: `%` and two capital hex digits.
pub open spec fn pct_of(b: u8) -> Seq<u8> {
    seq![B_PERCENT, hex_char(b / 16, true), hex_char(b % 16, true)]
}

/// What one byte becomes under the chosen escaping.
pub open spec fn url_enc_byte(b: u8, path: bool) -> Seq<u8> {
    if path {
        if path_escapes(b) {
            pct_of(b)
        } else {
            seq![b]
        }
    } else {
        if b == B_SPACE {
            seq![B_PLUS]
        } else if query_escapes(b) {
            pct_of(b)
        } else {
            seq![b]
        }
    }
}

/// The escaping of a byte string, byte for byte.
pub open spec fn sp_url_encode(s: Seq<u8>, path: bool) -> Seq<u8>
    decreases s.len(),
{
    if s.len() == 0 {
        Seq::empty()
    } else {
        sp_url_encode(s.drop_last(), path) + url_enc_byte(s.last(), path)
    }
}

/// The unescaping of a byte string: a `%` that two hex digits follow
/// becomes their byte; anything else passes through.
pub open spec fn sp_url_decode(s: Seq<u8>) -> Seq<u8>
    decreases s.len(),
{
    if s.len() == 0 {
        Seq::empty()
    } else if s[0] == B_PERCENT && s.len() >= 3 && hex_val(s[1]) is Some && hex_val(
        s[2],
    ) is Some {
        seq![(16 * hex_val(s[1])->0 + hex_val(s[2])->0) as u8] + sp_url_decode(
            s.subrange(3, s.len() as int),
        )
    } else {
        seq![s[0]] + sp_url_decode(s.subrange(1, s.len() as int))
    }
}

/// Escapes a byte string.
pub fn url_encode(data: &[u8], path: bool) -> (r: Vec<u8>)
    ensures
        r@ == sp_url_encode(data@, path),
{
    let mut out: Vec<u8> = Vec::new();
    let mut i: usize = 0;
    proof {
        assert(data@.take(0) =~= Seq::<u8>::empty());
    }
    while i < data.len()
        invariant
            0 <= i <= data@.len(),
            out@ == sp_url_encode(data@.take(i as int), path),
        decreases data@.len() - i,
    {
        let b = data[i];
        let escapes = if path {
            b < 32 || b >= 127 || b == 37 || b == 33 || b == 39 || b == 40 || b == 41 || b == 42
                || b == 44 || b == 47 || b == 59 || b == 91 || b == 92 || b == 93 || b == 94 || b
                == 124 || b == 32 || b == 34 || b == 35 || b == 60 || b == 62 || b == 63 || b == 96
                || b == 123 || b == 125
        } else {
            !((48 <= b && b <= 57) || (65 <= b && b <= 90) || (97 <= b && b <= 122) || b == 45 || b
                == 46 || b == 95 || b == 126)
        };
        let ghost pre = out@;
        if !path && b == B_SPACE {
            out.push(B_PLUS);
        } else if escapes {
            out.push(B_PERCENT);
            let hi = b / 16;
            let lo = b % 16;
            out.push(if hi < 10 {
                48 + hi
            } else {
                55 + hi
            });
            out.push(if lo < 10 {
                48 + lo
            } else {
                55 + lo
            });
        } else {
            out.push(b);
        }
        proof {
            let t = data@.take(i + 1 as int);
            assert(t.drop_last() =~= data@.take(i as int));
            assert(t.last() == data@[i as int]);
            assert(out@ =~= pre + url_enc_byte(data@[i as int], path));
        }
        i += 1;
    }
    proof {
        assert(data@.take(data@.len() as int) =~= data@);
    }
    out
}

/// Unescapes the prefix `c[..end]`.
fn url_decode_prefix(c: &[u8], end: usize) -> (r: Vec<u8>)
    requires
        end <= c@.len(),
    ensures
        r@ == sp_url_decode(c@.take(end as int)),
{
    let ghost ep = c@.take(end as int);
    let mut out: Vec<u8> = Vec::new();
    let mut i: usize = 0;
    proof {
        assert(ep.subrange(0, ep.len() as int) =~= ep);
    }
    while i < end
        invariant
            0 <= i <= end <= c@.len(),
            ep == c@.take(end as int),
            sp_url_decode(ep) == out@ + sp_url_decode(ep.subrange(i as int, ep.len() as int)),
        decreases end - i,
    {
        let ghost tail = ep.subrange(i as int, ep.len() as int);
        proof {
            assert(tail[0] == c@[i as int]);
            if end - i > 2 {
                assert(tail[1] == c@[i + 1 as int]);
                assert(tail[2] == c@[i + 2 as int]);
            }
        }
        let ghost out_pre = out@;
        if c[i] == B_PERCENT && end - i > 2 {
            let h = crate::hexcodec::hex_val_exec(c[i + 1]);
            let l = crate::hexcodec::hex_val_exec(c[i + 2]);
            match (h, l) {
                (Some(hv), Some(lv)) => {
                    out.push(16 * hv + lv);
                    proof {
                        assert(tail.subrange(3, tail.len() as int) =~= ep.subrange(
                            i + 3 as int,
                            ep.len() as int,
                        ));
                        assert(out@ =~= out_pre + seq![(16 * hv + lv) as u8]);
                        assert(out_pre + (seq![(16 * hv + lv) as u8] + sp_url_decode(
                            ep.subrange(i + 3 as int, ep.len() as int),
                        )) =~= out@ + sp_url_decode(ep.subrange(i + 3 as int, ep.len() as int)));
                    }
                    i += 3;
                },
                _ => {
                    out.push(c[i]);
                    proof {
                        assert(tail.subrange(1, tail.len() as int) =~= ep.subrange(
                            i + 1 as int,
                            ep.len() as int,
                        ));
                        assert(out@ =~= out_pre + seq![c@[i as int]]);
                        assert(out_pre + (seq![c@[i as int]] + sp_url_decode(
                            ep.subrange(i + 1 as int, ep.len() as int),
                        )) =~= out@ + sp_url_decode(ep.subrange(i + 1 as int, ep.len() as int)));
                    }
                    i += 1;
                },
            }
        } else {
            out.push(c[i]);
            proof {
                assert(tail.subrange(1, tail.len() as int) =~= ep.subrange(
                    i + 1 as int,
                    ep.len() as int,
                ));
                assert(out@ =~= out_pre + seq![c@[i as int]]);
                assert(out_pre + (seq![c@[i as int]] + sp_url_decode(
                    ep.subrange(i + 1 as int, ep.len() as int),
                )) =~= out@ + sp_url_decode(ep.subrange(i + 1 as int, ep.len() as int)));
            }
            i += 1;
        }
    }
    proof {
        assert(ep.subrange(end as int, ep.len() as int) =~= Seq::<u8>::empty());
        assert(out@ + Seq::<u8>::empty() =~= out@);
    }
    out
}

/// Where the carry splits: at a trailing `%` escape that is still
/// incomplete — fewer than two bytes after the last `%` — the rest
/// waits for more input.
pub open spec fn last_pct(c: Seq<u8>) -> Option<int>
    decreases c.len(),
{
    if c.len() == 0 {
        None
    } else if c.last() == B_PERCENT {
        Some(c.len() - 1)
    } else {
        last_pct(c.drop_last())
    }
}

pub open spec fn url_split_at(c: Seq<u8>) -> int {
    match last_pct(c) {
        Some(p) => if c.len() - p < 3 {
            p
        } else {
            c.len() as int
        },
        None => c.len() as int,
    }
}

/// The write-side escaping mapping: consumes everything, per byte.
pub struct UrlEncodeMapping {
    pub path: bool,
}

impl ChunkMapping for UrlEncodeMapping {
    open spec fn sp_map_ok(&self, carry: Seq<u8>) -> bool {
        true
    }

    open spec fn sp_emit(&self, carry: Seq<u8>) -> Seq<u8> {
        sp_url_encode(carry, self.path)
    }

    open spec fn sp_remain(&self, carry: Seq<u8>) -> Seq<u8> {
        Seq::empty()
    }

    open spec fn sp_map_err(&self, carry: Seq<u8>) -> ErrModel {
        ErrModel::StreamIntegrity
    }

    open spec fn sp_fin_ok(&self, carry: Seq<u8>) -> bool {
        true
    }

    open spec fn sp_fin(&self, carry: Seq<u8>) -> Option<Seq<u8>> {
        None
    }

    open spec fn sp_fin_err(&self, carry: Seq<u8>) -> ErrModel {
        ErrModel::StreamIntegrity
    }

    fn transform(&self, carry: &[u8]) -> (r: Result<(Vec<u8>, Vec<u8>), CodecError>) {
        let out = url_encode(carry, self.path);
        let rem: Vec<u8> = Vec::new();
        proof {
            assert(rem@ =~= Seq::<u8>::empty());
        }
        Ok((out, rem))
    }

    fn finalize_map(&self, carry: &[u8]) -> (r: Result<Option<Vec<u8>>, CodecError>) {
        Ok(None)
    }
}

/// The read-side unescaping mapping: decodes up to a trailing
/// incomplete escape, which waits as the carry; a leftover at end of
/// stream is corrupt data.
pub struct UrlDecodeMapping;

impl ChunkMapping for UrlDecodeMapping {
    open spec fn sp_map_ok(&self, carry: Seq<u8>) -> bool {
        true
    }

    open spec fn sp_emit(&self, carry: Seq<u8>) -> Seq<u8> {
        sp_url_decode(carry.take(url_split_at(carry)))
    }

    open spec fn sp_remain(&self, carry: Seq<u8>) -> Seq<u8> {
        carry.skip(url_split_at(carry))
    }

    open spec fn sp_map_err(&self, carry: Seq<u8>) -> ErrModel {
        ErrModel::StreamIntegrity
    }

    open spec fn sp_fin_ok(&self, carry: Seq<u8>) -> bool {
        false
    }

    open spec fn sp_fin(&self, carry: Seq<u8>) -> Option<Seq<u8>> {
        None
    }

    open spec fn sp_fin_err(&self, carry: Seq<u8>) -> ErrModel {
        ErrModel::StreamIntegrity
    }

    fn transform(&self, carry: &[u8]) -> (r: Result<(Vec<u8>, Vec<u8>), CodecError>) {
        // find the split: the last `%`, if it is within two bytes of
        // the end
        let mut split: usize = carry.len();
        let mut found: bool = false;
        let mut i: usize = carry.len();
        proof {
            assert(carry@.take(i as int) =~= carry@);
        }
        while !found && i > 0
            invariant
                i <= carry@.len(),
                found ==> split < carry@.len() && last_pct(carry@) == Some(split as int),
                !found ==> split == carry@.len() && last_pct(carry@.take(i as int)) == last_pct(
                    carry@,
                ),
            decreases (if found { 0int } else { i as int + 1 }),
        {
            proof {
                assert(carry@.take(i as int).last() == carry@[i - 1]);
                assert(carry@.take(i as int).drop_last() =~= carry@.take(i - 1));
            }
            if carry[i - 1] == B_PERCENT {
                split = i - 1;
                found = true;
            } else {
                i -= 1;
            }
        }
        let at: usize = if split < carry.len() && carry.len() - split < 3 {
            split
        } else {
            carry.len()
        };
        proof {
            if !found {
                assert(carry@.take(0) =~= Seq::<u8>::empty());
                assert(last_pct(carry@) is None);
                assert(at == url_split_at(carry@));
            } else {
                assert(last_pct(carry@) == Some(split as int));
                assert(at == url_split_at(carry@));
            }
        }
        let emit = url_decode_prefix(carry, at);
        let rem = sub_bytes(carry, at, carry.len());
        proof {
            assert(rem@ =~= carry@.skip(url_split_at(carry@)));
        }
        Ok((emit, rem))
    }

    fn finalize_map(&self, carry: &[u8]) -> (r: Result<Option<Vec<u8>>, CodecError>) {
        Err(CodecError::StreamIntegrity)
    }
}

/// URL escape transform: query escaping, or path escaping under `-p`.
pub struct UrlCodec;

impl Codec for UrlCodec {
    open spec fn spec_run(
        &self,
        input: Seq<u8>,
        mode: CodecMode,
        opts: Map<Seq<u8>, Option<Seq<u8>>>,
        reg: Seq<(Seq<u8>, Option<Seq<char>>)>,
        store: Map<Seq<u8>, Seq<u8>>,
    ) -> Result<(Seq<u8>, Map<Seq<u8>, Seq<u8>>), ErrModel> {
        let path = opts.contains_key(seq![N_LOWER_P]);
        match mode {
            CodecMode::Encoding => Ok((sp_url_encode(input, path), store)),
            CodecMode::Decoding => match sp_drain(UrlDecodeMapping, input, 0, Seq::empty()) {
                Err(e) => Err(e),
                Ok(p) => if p.1.len() > 0 {
                    Err(ErrModel::StreamIntegrity)
                } else {
                    Ok((p.0, store))
                },
            },
        }
    }

    fn run_codec(
        &self,
        input: &Vec<u8>,
        mode: CodecMode,
        options: &Options,
        info: &CodecMetaInfo,
        store: &mut FileStore,
    ) -> (r: Result<Vec<u8>, CodecError>) {
        let p_name = byte_name(N_LOWER_P);
        let path = options.get_switch(p_name.as_slice());
        match mode {
            CodecMode::Encoding => {
                let mut enc = BytesToBytesEncoder::new(UrlEncodeMapping { path });
                match enc.write(input.as_slice()) {
                    Ok(()) => {},
                    Err(e) => {
                        return Err(e);
                    },
                }
                proof {
                    assert(Seq::<u8>::empty() + input@ =~= input@);
                    assert(Seq::<u8>::empty() + sp_url_encode(input@, path) =~= sp_url_encode(
                        input@,
                        path,
                    ));
                }
                match enc.finalize().finish() {
                    Ok(v) => Ok(v),
                    Err(e) => Err(e),
                }
            },
            CodecMode::Decoding => {
                let mut dec = BytesToBytesDecoder::new(
                    copy_bytes(input.as_slice()),
                    UrlDecodeMapping,
                );
                match dec.drain() {
                    Ok(v) => Ok(v),
                    Err(e) => Err(e),
                }
            },
        }
    }
}

impl CodecUsage for UrlCodec {
    open spec fn spec_usage(&self) -> Seq<char> {
        "    url query escape/unescape\n    -p: use path escape instead of query escape"@
    }

    fn usage(&self) -> (r: String) {
        String::from_str("    url query escape/unescape\n    -p: use path escape instead of query escape")
    }
}


/// All chunks of a chunking, end to end.
pub open spec fn sp_url_concat(chunks: Seq<Seq<u8>>) -> Seq<u8>
    decreases chunks.len(),
{
    if chunks.len() == 0 {
        Seq::empty()
    } else {
        chunks[0] + sp_url_concat(chunks.subrange(1, chunks.len() as int))
    }
}

proof fn lemma_url_feed(chunks: Seq<Seq<u8>>, out: Seq<u8>, path: bool)
    ensures
        crate::adapters::sp_feed(UrlEncodeMapping { path }, chunks, out, Seq::empty()) == Ok::<
            (Seq<u8>, Seq<u8>),
            crate::errors::ErrModel,
        >((out + sp_url_encode(sp_url_concat(chunks), path), Seq::empty())),
    decreases chunks.len(),
{
    let m = UrlEncodeMapping { path };
    if chunks.len() == 0 {
        assert(sp_url_encode(sp_url_concat(chunks), path) =~= Seq::<u8>::empty());
        assert(out + Seq::<u8>::empty() =~= out);
    } else {
        let rest = chunks.subrange(1, chunks.len() as int);
        let c = Seq::<u8>::empty() + chunks[0];
        assert(c =~= chunks[0]);
        lemma_url_feed(rest, out + m.sp_emit(c), path);
        lemma_url_encode_append(chunks[0], sp_url_concat(rest), path);
        assert((out + sp_url_encode(chunks[0], path)) + sp_url_encode(sp_url_concat(rest), path)
            =~= out + sp_url_encode(sp_url_concat(chunks), path));
    }
}

/// Chunk independence of the write adapter on the URL transform: any
/// chunking of the input escapes to exactly the escaping of the
/// concatenation, with nothing left in the carry.
pub proof fn lemma_url_encoder_chunking(chunks: Seq<Seq<u8>>, path: bool)
    ensures
        crate::adapters::sp_feed(UrlEncodeMapping { path }, chunks, Seq::empty(), Seq::empty())
            == Ok::<(Seq<u8>, Seq<u8>), crate::errors::ErrModel>(
            (sp_url_encode(sp_url_concat(chunks), path), Seq::empty()),
        ),
{
    lemma_url_feed(chunks, Seq::empty(), path);
    assert(Seq::<u8>::empty() + sp_url_encode(sp_url_concat(chunks), path) =~= sp_url_encode(
        sp_url_concat(chunks),
        path,
    ));
}

/// Escaping splits over concatenation, byte for byte.
pub proof fn lemma_url_encode_append(a: Seq<u8>, b: Seq<u8>, path: bool)
    ensures
        sp_url_encode(a + b, path) == sp_url_encode(a, path) + sp_url_encode(b, path),
    decreases b.len(),
{
    if b.len() == 0 {
        assert(a + b =~= a);
        assert(sp_url_encode(b, path) =~= Seq::<u8>::empty());
        assert(sp_url_encode(a, path) + sp_url_encode(b, path) =~= sp_url_encode(a, path));
    } else {
        lemma_url_encode_append(a, b.drop_last(), path);
        assert((a + b).drop_last() =~= a + b.drop_last());
        assert((a + b).last() == b.last());
        assert(sp_url_encode(a, path) + (sp_url_encode(b.drop_last(), path) + url_enc_byte(
            b.last(),
            path,
        )) =~= (sp_url_encode(a, path) + sp_url_encode(b.drop_last(), path)) + url_enc_byte(
            b.last(),
            path,
        ));
    }
}

/// Round trip of the pure escapings: unescaping what was escaped gives
/// the input back — for path escaping on every input, for query
/// escaping on every input without a space (a space goes out as `+`
/// and comes back as `+`, so inputs holding spaces are excluded).
pub proof fn lemma_url_round_trip(x: Seq<u8>, path: bool)
    requires
        path || forall|i: int| 0 <= i < x.len() ==> x[i] != B_SPACE,
    ensures
        sp_url_decode(sp_url_encode(x, path)) == x,
    decreases x.len(),
{
    if x.len() == 0 {
        assert(sp_url_encode(x, path) =~= Seq::<u8>::empty());
        assert(sp_url_decode(Seq::<u8>::empty()) =~= Seq::<u8>::empty());
        assert(x =~= Seq::<u8>::empty());
    } else {
        let x0 = x[0];
        let rest = x.drop_first();
        assert(forall|i: int| 0 <= i < rest.len() ==> rest[i] == x[i + 1]);
        lemma_url_round_trip(rest, path);
        assert(x =~= seq![x0] + rest);
        lemma_url_encode_append(seq![x0], rest, path);
        let single = sp_url_encode(seq![x0], path);
        assert(seq![x0].drop_last() =~= Seq::<u8>::empty());
        assert(seq![x0].last() == x0);
        assert(sp_url_encode(Seq::<u8>::empty(), path) == Seq::<u8>::empty());
        assert(single =~= url_enc_byte(x0, path));
        let enc = sp_url_encode(x, path);
        assert(enc == single + sp_url_encode(rest, path));
        if url_enc_byte(x0, path) == pct_of(x0) {
            assert(enc[0] == B_PERCENT);
            assert(enc[1] == hex_char(x0 / 16, true));
            assert(enc[2] == hex_char(x0 % 16, true));
            assert(hex_val(enc[1]) == Some((x0 / 16) as u8));
            assert(hex_val(enc[2]) == Some((x0 % 16) as u8));
            assert(enc.subrange(3, enc.len() as int) =~= sp_url_encode(rest, path));
            assert(16 * (x0 / 16) + x0 % 16 == x0);
            assert(seq![x0] + rest =~= x);
        } else {
            let lit: u8 = if !path && x0 == B_SPACE {
                B_PLUS
            } else {
                x0
            };
            assert(url_enc_byte(x0, path) =~= seq![lit]);
            assert(!path ==> x0 != B_SPACE);
            assert(lit == x0);
            assert(lit != B_PERCENT) by {
                if path {
                    assert(!path_escapes(x0));
                } else {
                    assert(!query_escapes(x0));
                }
            }
            assert(enc[0] == lit);
            assert(enc.subrange(1, enc.len() as int) =~= sp_url_encode(rest, path));
            assert(seq![x0] + rest =~= x);
        }
    }
}

} // verus!
