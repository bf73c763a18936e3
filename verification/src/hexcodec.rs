//! Hexadecimal encoding and decoding, implemented and verified here in
//! full: two digits per byte out, the largest even-length prefix in.
//! This transform is the worked example of the adapter laws: encoding
//! through the write adapter is proved independent of how the caller
//! chunks the input, and decoding what was encoded is proved to give
//! the input back.

use vstd::prelude::*;

use crate::CodecMode;
use crate::adapters::{
    BytesToBytesDecoder, BytesToBytesEncoder, ChunkMapping, sp_drain, sp_feed,
};
use crate::bytes::{byte_name, sub_bytes, copy_bytes};
use crate::codec_trait::Codec;
use crate::errors::{CodecError, ErrModel};
use crate::filestore::FileStore;
use crate::options::Options;
use crate::registry::CodecMetaInfo;

verus! {

pub const N_LOWER_C: u8 = 99;

/// The digit for a nibble: `0`–`9`, then `a`–`f` or `A`–`F`.
pub open spec fn hex_char(n: u8, upper: bool) -> u8 {
    if n < 10 {
        (48 + n) as u8
    } else if upper {
        (55 + n) as u8
    } else {
        (87 + n) as u8
    }
}

/// The hex digits of a byte string, two per byte, high nibble first.
pub open spec fn sp_hex_encode(s: Seq<u8>, upper: bool) -> Seq<u8>
    decreases s.len(),
{
    if s.len() == 0 {
        Seq::empty()
    } else {
        sp_hex_encode(s.drop_last(), upper) + seq![
            hex_char(s.last() / 16, upper),
            hex_char(s.last() % 16, upper),
        ]
    }
}

/// The nibble a digit denotes, either case accepted.
pub open spec fn hex_val(c: u8) -> Option<u8> {
    if 48 <= c && c <= 57 {
        Some((c - 48) as u8)
    } else if 97 <= c && c <= 102 {
        Some((c - 87) as u8)
    } else if 65 <= c && c <= 70 {
        Some((c - 55) as u8)
    } else {
        None
    }
}

/// The bytes an even-length digit string denotes; `None` on an odd
/// length or a non-digit.
pub open spec fn sp_hex_decode(s: Seq<u8>) -> Option<Seq<u8>>
    decreases s.len(),
{
    if s.len() == 0 {
        Some(Seq::empty())
    } else if s.len() == 1 {
        None
    } else {
        match (hex_val(s[0]), hex_val(s[1])) {
            (Some(h), Some(l)) => match sp_hex_decode(s.subrange(2, s.len() as int)) {
                Some(r) => Some(seq![(16 * h + l) as u8] + r),
                None => None,
            },
            _ => None,
        }
    }
}

/// Renders bytes as hex digits.
pub fn hex_encode(data: &[u8], upper: bool) -> (r: Vec<u8>)
    ensures
        r@ == sp_hex_encode(data@, upper),
{
    let mut out: Vec<u8> = Vec::new();
    let mut i: usize = 0;
    proof {
        assert(data@.take(0) =~= Seq::<u8>::empty());
    }
    while i < data.len()
        invariant
            0 <= i <= data@.len(),
            out@ == sp_hex_encode(data@.take(i as int), upper),
        decreases data@.len() - i,
    {
        let b = data[i];
        let hi: u8 = b / 16;
        let lo: u8 = b % 16;
        let hc: u8 = if hi < 10 {
            48 + hi
        } else if upper {
            55 + hi
        } else {
            87 + hi
        };
        let lc: u8 = if lo < 10 {
            48 + lo
        } else if upper {
            55 + lo
        } else {
            87 + lo
        };
        let ghost pre = out@;
        out.push(hc);
        out.push(lc);
        proof {
            let t = data@.take(i + 1 as int);
            assert(t.drop_last() =~= data@.take(i as int));
            assert(t.last() == data@[i as int]);
            assert(out@ =~= pre + seq![hex_char(t.last() / 16, upper), hex_char(
                t.last() % 16,
                upper,
            )]);
        }
        i += 1;
    }
    proof {
        assert(data@.take(data@.len() as int) =~= data@);
    }
    out
}

/// The nibble a digit denotes.
pub fn hex_val_exec(c: u8) -> (r: Option<u8>)
    ensures
        r == hex_val(c),
{
    if 48 <= c && c <= 57 {
        Some(c - 48)
    } else if 97 <= c && c <= 102 {
        Some(c - 87)
    } else if 65 <= c && c <= 70 {
        Some(c - 55)
    } else {
        None
    }
}

/// Decodes the even-length prefix `c[..pairs_end]`; the transform error
/// carries that prefix when a non-digit spoils it.
fn hex_decode_prefix(c: &[u8], pairs_end: usize) -> (r: Result<Vec<u8>, CodecError>)
    requires
        pairs_end <= c@.len(),
        pairs_end % 2 == 0,
    ensures
        match r {
            Ok(v) => sp_hex_decode(c@.take(pairs_end as int)) == Some(v@),
            Err(e) => sp_hex_decode(c@.take(pairs_end as int)) is None && e@ == ErrModel::Transform(
                c@.take(pairs_end as int),
            ),
        },
{
    let ghost ep = c@.take(pairs_end as int);
    let mut out: Vec<u8> = Vec::new();
    let mut j: usize = 0;
    proof {
        assert(ep.subrange(0, ep.len() as int) =~= ep);
    }
    while j < pairs_end
        invariant
            0 <= j <= pairs_end <= c@.len(),
            j % 2 == 0,
            pairs_end % 2 == 0,
            ep == c@.take(pairs_end as int),
            sp_hex_decode(ep) == (match sp_hex_decode(ep.subrange(j as int, ep.len() as int)) {
                Some(rr) => Some(out@ + rr),
                None => None::<Seq<u8>>,
            }),
        decreases pairs_end - j,
    {
        let ghost tail = ep.subrange(j as int, ep.len() as int);
        proof {
            assert(tail.len() >= 2);
            assert(tail[0] == c@[j as int]);
            assert(tail[1] == c@[j + 1 as int]);
            assert(tail.subrange(2, tail.len() as int) =~= ep.subrange(
                j + 2 as int,
                ep.len() as int,
            ));
        }
        let h = match hex_val_exec(c[j]) {
            Some(v) => v,
            None => {
                return Err(CodecError::Transform(sub_bytes(c, 0, pairs_end)));
            },
        };
        let l = match hex_val_exec(c[j + 1]) {
            Some(v) => v,
            None => {
                return Err(CodecError::Transform(sub_bytes(c, 0, pairs_end)));
            },
        };
        let ghost out_pre = out@;
        out.push(16 * h + l);
        proof {
            assert(out@ =~= out_pre + seq![(16 * h + l) as u8]);
            match sp_hex_decode(ep.subrange(j + 2 as int, ep.len() as int)) {
                Some(rr) => {
                    assert(out_pre + (seq![(16 * h + l) as u8] + rr) =~= out@ + rr);
                },
                None => {},
            }
        }
        j += 2;
    }
    proof {
        assert(ep.subrange(pairs_end as int, ep.len() as int) =~= Seq::<u8>::empty());
    }
    Ok(out)
}

/// The write-side hex mapping: every carry encodes completely, nothing
/// is held back and nothing needs finalizing.
pub struct HexEncodeMapping {
    pub upper: bool,
}

impl ChunkMapping for HexEncodeMapping {
    open spec fn sp_map_ok(&self, carry: Seq<u8>) -> bool {
        true
    }

    open spec fn sp_emit(&self, carry: Seq<u8>) -> Seq<u8> {
        sp_hex_encode(carry, self.upper)
    }

    open spec fn sp_remain(&self, carry: Seq<u8>) -> Seq<u8> {
        Seq::empty()
    }

    open spec fn sp_map_err(&self, carry: Seq<u8>) -> ErrModel {
        ErrModel::StreamIntegrity
    }

    open spec fn sp_fin_ok(&self, carry: Seq<u8>) -> bool {
        true
    }

    open spec fn sp_fin(&self, carry: Seq<u8>) -> Option<Seq<u8>> {
        None
    }

    open spec fn sp_fin_err(&self, carry: Seq<u8>) -> ErrModel {
        ErrModel::StreamIntegrity
    }

    fn transform(&self, carry: &[u8]) -> (r: Result<(Vec<u8>, Vec<u8>), CodecError>) {
        let out = hex_encode(carry, self.upper);
        let rem: Vec<u8> = Vec::new();
        proof {
            assert(rem@ =~= Seq::<u8>::empty());
        }
        Ok((out, rem))
    }

    fn finalize_map(&self, carry: &[u8]) -> (r: Result<Option<Vec<u8>>, CodecError>) {
        Ok(None)
    }
}

/// The read-side hex mapping: decodes the largest even-length prefix,
/// keeps an odd trailing digit; a leftover at end of stream is corrupt
/// data, so nothing finalizes.
pub struct HexDecodeMapping;

/// Where the even-length prefix of a carry ends.
pub open spec fn even_end(c: Seq<u8>) -> int {
    c.len() - (c.len() % 2)
}

impl ChunkMapping for HexDecodeMapping {
    open spec fn sp_map_ok(&self, carry: Seq<u8>) -> bool {
        sp_hex_decode(carry.take(even_end(carry))) is Some
    }

    open spec fn sp_emit(&self, carry: Seq<u8>) -> Seq<u8> {
        match sp_hex_decode(carry.take(even_end(carry))) {
            Some(v) => v,
            None => Seq::empty(),
        }
    }

    open spec fn sp_remain(&self, carry: Seq<u8>) -> Seq<u8> {
        carry.skip(even_end(carry))
    }

    open spec fn sp_map_err(&self, carry: Seq<u8>) -> ErrModel {
        ErrModel::Transform(carry.take(even_end(carry)))
    }

    open spec fn sp_fin_ok(&self, carry: Seq<u8>) -> bool {
        false
    }

    open spec fn sp_fin(&self, carry: Seq<u8>) -> Option<Seq<u8>> {
        None
    }

    open spec fn sp_fin_err(&self, carry: Seq<u8>) -> ErrModel {
        ErrModel::StreamIntegrity
    }

    fn transform(&self, carry: &[u8]) -> (r: Result<(Vec<u8>, Vec<u8>), CodecError>) {
        let pe: usize = carry.len() - carry.len() % 2;
        match hex_decode_prefix(carry, pe) {
            Ok(v) => {
                let rem = sub_bytes(carry, pe, carry.len());
                proof {
                    assert(rem@ =~= carry@.skip(even_end(carry@)));
                }
                Ok((v, rem))
            },
            Err(e) => Err(e),
        }
    }

    fn finalize_map(&self, carry: &[u8]) -> (r: Result<Option<Vec<u8>>, CodecError>) {
        Err(CodecError::StreamIntegrity)
    }
}

/// Hex transform: bytes to digits when encoding (`-c` for capitals),
/// digits to bytes when decoding, driven through the stream adapters.
pub struct HexCodec;

impl Codec for HexCodec {
    open spec fn spec_run(
        &self,
        input: Seq<u8>,
        mode: CodecMode,
        opts: Map<Seq<u8>, Option<Seq<u8>>>,
        reg: Seq<(Seq<u8>, Option<Seq<char>>)>,
        store: Map<Seq<u8>, Seq<u8>>,
    ) -> Result<(Seq<u8>, Map<Seq<u8>, Seq<u8>>), ErrModel> {
        match mode {
            CodecMode::Encoding => Ok(
                (sp_hex_encode(input, opts.contains_key(seq![N_LOWER_C])), store),
            ),
            CodecMode::Decoding => match sp_drain(HexDecodeMapping, input, 0, Seq::empty()) {
                Err(e) => Err(e),
                Ok(p) => if p.1.len() > 0 {
                    Err(ErrModel::StreamIntegrity)
                } else {
                    Ok((p.0, store))
                },
            },
        }
    }

    fn run_codec(
        &self,
        input: &Vec<u8>,
        mode: CodecMode,
        options: &Options,
        info: &CodecMetaInfo,
        store: &mut FileStore,
    ) -> (r: Result<Vec<u8>, CodecError>) {
        let c_name = byte_name(N_LOWER_C);
        let upper = options.get_switch(c_name.as_slice());
        match mode {
            CodecMode::Encoding => {
                let mut enc = BytesToBytesEncoder::new(HexEncodeMapping { upper });
                match enc.write(input.as_slice()) {
                    Ok(()) => {},
                    Err(e) => {
                        return Err(e);
                    },
                }
                proof {
                    assert(Seq::<u8>::empty() + input@ =~= input@);
                    assert(Seq::<u8>::empty() + sp_hex_encode(input@, upper) =~= sp_hex_encode(
                        input@,
                        upper,
                    ));
                }
                match enc.finalize().finish() {
                    Ok(v) => Ok(v),
                    Err(e) => Err(e),
                }
            },
            CodecMode::Decoding => {
                let mut dec = BytesToBytesDecoder::new(
                    copy_bytes(input.as_slice()),
                    HexDecodeMapping,
                );
                match dec.drain() {
                    Ok(v) => Ok(v),
                    Err(e) => Err(e),
                }
            },
        }
    }
}

/// Hex encoding splits over concatenation: the digits of `a ++ b` are
/// the digits of `a` then the digits of `b`.
pub proof fn lemma_hex_encode_append(a: Seq<u8>, b: Seq<u8>, upper: bool)
    ensures
        sp_hex_encode(a + b, upper) == sp_hex_encode(a, upper) + sp_hex_encode(b, upper),
    decreases b.len(),
{
    if b.len() == 0 {
        assert(a + b =~= a);
        assert(sp_hex_encode(b, upper) =~= Seq::<u8>::empty());
        assert(sp_hex_encode(a, upper) + sp_hex_encode(b, upper) =~= sp_hex_encode(a, upper));
    } else {
        lemma_hex_encode_append(a, b.drop_last(), upper);
        assert((a + b).drop_last() =~= a + b.drop_last());
        assert((a + b).last() == b.last());
        assert(sp_hex_encode(a, upper) + (sp_hex_encode(b.drop_last(), upper) + seq![
            hex_char(b.last() / 16, upper),
            hex_char(b.last() % 16, upper),
        ]) =~= (sp_hex_encode(a, upper) + sp_hex_encode(b.drop_last(), upper)) + seq![
            hex_char(b.last() / 16, upper),
            hex_char(b.last() % 16, upper),
        ]);
    }
}

/// All chunks of a chunking, end to end.
pub open spec fn sp_concat(chunks: Seq<Seq<u8>>) -> Seq<u8>
    decreases chunks.len(),
{
    if chunks.len() == 0 {
        Seq::empty()
    } else {
        chunks[0] + sp_concat(chunks.subrange(1, chunks.len() as int))
    }
}

proof fn lemma_hex_feed(chunks: Seq<Seq<u8>>, out: Seq<u8>, upper: bool)
    ensures
        sp_feed(HexEncodeMapping { upper }, chunks, out, Seq::empty()) == Ok::<
            (Seq<u8>, Seq<u8>),
            ErrModel,
        >((out + sp_hex_encode(sp_concat(chunks), upper), Seq::empty())),
    decreases chunks.len(),
{
    let m = HexEncodeMapping { upper };
    if chunks.len() == 0 {
        assert(sp_hex_encode(sp_concat(chunks), upper) =~= Seq::<u8>::empty());
        assert(out + Seq::<u8>::empty() =~= out);
    } else {
        let rest = chunks.subrange(1, chunks.len() as int);
        let c = Seq::<u8>::empty() + chunks[0];
        assert(c =~= chunks[0]);
        lemma_hex_feed(rest, out + m.sp_emit(c), upper);
        lemma_hex_encode_append(chunks[0], sp_concat(rest), upper);
        assert((out + sp_hex_encode(chunks[0], upper)) + sp_hex_encode(sp_concat(rest), upper)
            =~= out + sp_hex_encode(sp_concat(chunks), upper));
    }
}

/// Chunk independence of the write adapter on the hex transform: feed
/// an input in any chunking whatever — byte by byte, seven at a time,
/// all at once — and the adapter emits exactly the hex digits of the
/// concatenation, with nothing left in the carry.
pub proof fn lemma_hex_encoder_chunking(chunks: Seq<Seq<u8>>, upper: bool)
    ensures
        sp_feed(HexEncodeMapping { upper }, chunks, Seq::empty(), Seq::empty()) == Ok::<
            (Seq<u8>, Seq<u8>),
            ErrModel,
        >((sp_hex_encode(sp_concat(chunks), upper), Seq::empty())),
{
    lemma_hex_feed(chunks, Seq::empty(), upper);
    assert(Seq::<u8>::empty() + sp_hex_encode(sp_concat(chunks), upper) =~= sp_hex_encode(
        sp_concat(chunks),
        upper,
    ));
}

/// Decoding a decodable string splits at any even boundary.
proof fn lemma_hex_decode_split(t: Seq<u8>, k: int)
    requires
        0 <= 2 * k <= t.len(),
        sp_hex_decode(t) is Some,
    ensures
        ({
            let whole = sp_hex_decode(t);
            let a = sp_hex_decode(t.take(2 * k));
            let b = sp_hex_decode(t.skip(2 * k));
            a is Some && b is Some && whole == Some(a->0 + b->0)
        }),
    decreases k,
{
    if k == 0 {
        assert(t.take(0) =~= Seq::<u8>::empty());
        assert(t.skip(0) =~= t);
        assert(sp_hex_decode(t.take(0)) == Some(Seq::<u8>::empty()));
        assert(Seq::<u8>::empty() + sp_hex_decode(t)->0 =~= sp_hex_decode(t)->0);
    } else {
        let t2 = t.subrange(2, t.len() as int);
        lemma_hex_decode_split(t2, k - 1);
        let a2 = sp_hex_decode(t2.take(2 * (k - 1)));
        let b2 = sp_hex_decode(t2.skip(2 * (k - 1)));
        let a = sp_hex_decode(t.take(2 * k));
        assert(t.take(2 * k)[0] == t[0]);
        assert(t.take(2 * k)[1] == t[1]);
        assert(t.take(2 * k).subrange(2, 2 * k) =~= t2.take(2 * (k - 1)));
        assert(t.skip(2 * k) =~= t2.skip(2 * (k - 1)));
        assert(a is Some);
        let h = hex_val(t[0])->0;
        let l = hex_val(t[1])->0;
        assert(a->0 == seq![(16 * h + l) as u8] + a2->0);
        assert((seq![(16 * h + l) as u8] + a2->0) + b2->0 =~= seq![(16 * h + l) as u8] + (a2->0
            + b2->0));
    }
}

/// Draining through the decode mapping recovers the whole decode:
/// whatever decodable stream the source holds, and wherever the
/// fixed-size pulls happen to cut it, the decoder emits exactly the
/// stream's decode with an empty final carry.
pub proof fn lemma_hex_drain_valid(input: Seq<u8>, pos: int, carry: Seq<u8>)
    requires
        0 <= pos <= input.len(),
        carry.len() < 2,
        sp_hex_decode(carry + input.skip(pos)) is Some,
    ensures
        sp_drain(HexDecodeMapping, input, pos, carry) == Ok::<(Seq<u8>, Seq<u8>), ErrModel>(
            (sp_hex_decode(carry + input.skip(pos))->0, Seq::empty()),
        ),
    decreases input.len() - pos,
{
    let m = HexDecodeMapping;
    let t = carry + input.skip(pos);
    if pos == input.len() {
        assert(t =~= carry);
        assert(carry.len() == 0);
        assert(t =~= Seq::<u8>::empty());
        assert(sp_hex_decode(t)->0 =~= Seq::<u8>::empty());
    } else {
        let k: int = if input.len() - pos < crate::adapters::DECODER_CHUNK as int {
            input.len() - pos
        } else {
            crate::adapters::DECODER_CHUNK as int
        };
        let c = carry + input.subrange(pos, pos + k);
        let ee = even_end(c);
        assert(c =~= t.take(c.len() as int));
        assert(c.take(ee) =~= t.take(ee));
        lemma_hex_decode_split(t, ee / 2);
        assert(2 * (ee / 2) == ee);
        assert(m.sp_map_ok(c)) by {
            assert(c.take(ee) == t.take(ee));
        }
        let rem = c.skip(ee);
        assert(rem.len() < 2);
        assert(rem + input.skip(pos + k) =~= t.skip(ee));
        lemma_hex_drain_valid(input, pos + k, rem);
        assert(m.sp_emit(c) == sp_hex_decode(t.take(ee))->0);
        assert(sp_hex_decode(t.take(ee))->0 + sp_hex_decode(t.skip(ee))->0 == sp_hex_decode(
            t,
        )->0);
    }
}

/// Round trip: decoding the hex digits of any byte string — through
/// the very decode mechanism the transform runs, in either digit case —
/// gives the byte string back, with nothing left over.
pub proof fn lemma_hex_round_trip(x: Seq<u8>, upper: bool)
    ensures
        sp_drain(HexDecodeMapping, sp_hex_encode(x, upper), 0, Seq::empty()) == Ok::<
            (Seq<u8>, Seq<u8>),
            ErrModel,
        >((x, Seq::empty())),
{
    lemma_hex_decode_encode(x, upper);
    let enc = sp_hex_encode(x, upper);
    assert(Seq::<u8>::empty() + enc.skip(0) =~= enc);
    lemma_hex_drain_valid(enc, 0, Seq::empty());
}

/// The pure round trip: decode of encode is the identity.
pub proof fn lemma_hex_decode_encode(x: Seq<u8>, upper: bool)
    ensures
        sp_hex_decode(sp_hex_encode(x, upper)) == Some(x),
    decreases x.len(),
{
    if x.len() == 0 {
        assert(sp_hex_encode(x, upper) =~= Seq::<u8>::empty());
        assert(sp_hex_decode(Seq::<u8>::empty()) == Some(Seq::<u8>::empty()));
        assert(x =~= Seq::<u8>::empty());
    } else {
        let x0 = x[0];
        let rest = x.drop_first();
        lemma_hex_decode_encode(rest, upper);
        assert(x =~= seq![x0] + rest);
        lemma_hex_encode_append(seq![x0], rest, upper);
        let single = sp_hex_encode(seq![x0], upper);
        assert(seq![x0].drop_last() =~= Seq::<u8>::empty());
        assert(seq![x0].last() == x0);
        assert(sp_hex_encode(Seq::<u8>::empty(), upper) == Seq::<u8>::empty());
        assert(single =~= seq![hex_char(x0 / 16, upper), hex_char(x0 % 16, upper)]);
        let enc = sp_hex_encode(x, upper);
        assert(enc == single + sp_hex_encode(rest, upper));
        assert(enc.len() >= 2);
        assert(enc[0] == hex_char(x0 / 16, upper));
        assert(enc[1] == hex_char(x0 % 16, upper));
        assert(hex_val(enc[0]) == Some((x0 / 16) as u8));
        assert(hex_val(enc[1]) == Some((x0 % 16) as u8));
        assert(enc.subrange(2, enc.len() as int) =~= sp_hex_encode(rest, upper));
        assert(16 * (x0 / 16) + x0 % 16 == x0);
        assert(seq![x0] + rest =~= x);
    }
}

} // verus!
