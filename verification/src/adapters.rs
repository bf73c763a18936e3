//! Incremental adapters between chunked writes/reads and byte-group
//! transforms.
//!
//! A `ChunkMapping` turns a carry buffer into emitted bytes plus a
//! remainder that waits for more input; a one-shot finalizer handles the
//! last partial group (padding, a trailing block). The encoder adapter
//! feeds arbitrary caller-chosen chunks through the mapping; the decoder
//! adapter pulls fixed-size chunks from an in-memory source. Both keep
//! the carry invariant: bytes enter the carry, leave only through the
//! mapping, and the carry must be empty — or finalized exactly once — at
//! end of stream.

use vstd::prelude::*;

use crate::bytes::push_bytes;
use crate::errors::{CodecError, ErrModel};

verus! {

/// How many bytes the decoder adapter pulls from its source per step.
pub const DECODER_CHUNK: usize = 1024;

/// A deterministic byte-group transform driven by the adapters.
///
/// `transform` must emit exactly `sp_emit(carry)` and keep exactly
/// `sp_remain(carry)` for later; `finalize_map` is the one-shot step for
/// a non-empty final carry.
pub trait ChunkMapping: Sized {
    /// Whether the mapping accepts this carry.
    spec fn sp_map_ok(&self, carry: Seq<u8>) -> bool;

    /// What the mapping emits for this carry.
    spec fn sp_emit(&self, carry: Seq<u8>) -> Seq<u8>;

    /// What the mapping keeps for the next round.
    spec fn sp_remain(&self, carry: Seq<u8>) -> Seq<u8>;

    /// The error reported when the carry is rejected.
    spec fn sp_map_err(&self, carry: Seq<u8>) -> ErrModel;

    /// Whether the one-shot finalizer accepts this carry.
    spec fn sp_fin_ok(&self, carry: Seq<u8>) -> bool;

    /// What the finalizer emits, if anything.
    spec fn sp_fin(&self, carry: Seq<u8>) -> Option<Seq<u8>>;

    /// The error reported when the final carry is rejected.
    spec fn sp_fin_err(&self, carry: Seq<u8>) -> ErrModel;

    /// One incremental step: emitted bytes and the new carry.
    fn transform(&self, carry: &[u8]) -> (r: Result<(Vec<u8>, Vec<u8>), CodecError>)
        ensures
            match r {
                Ok(p) => self.sp_map_ok(carry@) && p.0@ == self.sp_emit(carry@) && p.1@
                    == self.sp_remain(carry@),
                Err(e) => !self.sp_map_ok(carry@) && e@ == self.sp_map_err(carry@),
            },
    ;

    /// The one-shot end-of-stream step for a non-empty carry.
    fn finalize_map(&self, carry: &[u8]) -> (r: Result<Option<Vec<u8>>, CodecError>)
        ensures
            match r {
                Ok(Some(e)) => self.sp_fin_ok(carry@) && self.sp_fin(carry@) == Some(e@),
                Ok(None) => self.sp_fin_ok(carry@) && self.sp_fin(carry@) is None,
                Err(e) => !self.sp_fin_ok(carry@) && e@ == self.sp_fin_err(carry@),
            },
    ;
}

/// The state an encoder reaches after a sequence of chunked writes,
/// starting from an empty buffer: accumulated output and pending carry.
pub open spec fn sp_feed<M: ChunkMapping>(m: M, chunks: Seq<Seq<u8>>, out: Seq<u8>, carry: Seq<
    u8,
>) -> Result<(Seq<u8>, Seq<u8>), ErrModel>
    decreases chunks.len(),
{
    if chunks.len() == 0 {
        Ok((out, carry))
    } else {
        let c = carry + chunks[0];
        if !m.sp_map_ok(c) {
            Err(m.sp_map_err(c))
        } else {
            sp_feed(m, chunks.subrange(1, chunks.len() as int), out + m.sp_emit(c), m.sp_remain(c))
        }
    }
}

/// Write-side adapter: buffers a carry, forwards what the mapping emits.
pub struct BytesToBytesEncoder<M: ChunkMapping> {
    mapping: M,
    out: Vec<u8>,
    carry: Vec<u8>,
}

impl<M: ChunkMapping> BytesToBytesEncoder<M> {
    pub closed spec fn mapping_is(&self) -> M {
        self.mapping
    }

    pub closed spec fn out_sofar(&self) -> Seq<u8> {
        self.out@
    }

    pub closed spec fn carry_now(&self) -> Seq<u8> {
        self.carry@
    }

    /// An adapter with nothing written yet.
    pub fn new(mapping: M) -> (r: Self)
        ensures
            r.mapping_is() == mapping,
            r.out_sofar() == Seq::<u8>::empty(),
            r.carry_now() == Seq::<u8>::empty(),
    {
        BytesToBytesEncoder { mapping, out: Vec::new(), carry: Vec::new() }
    }

    /// Accepts one chunk: the carry plus the chunk go through the
    /// mapping once; what it emits joins the output, the rest becomes
    /// the new carry. On an error nothing changes.
    pub fn write(&mut self, buf: &[u8]) -> (r: Result<(), CodecError>)
        ensures
            final(self).mapping_is() == old(self).mapping_is(),
            ({
                let c = old(self).carry_now() + buf@;
                match r {
                    Ok(()) => old(self).mapping_is().sp_map_ok(c) && final(self).out_sofar() == old(
                        self,
                    ).out_sofar() + old(self).mapping_is().sp_emit(c) && final(self).carry_now()
                        == old(self).mapping_is().sp_remain(c),
                    Err(e) => !old(self).mapping_is().sp_map_ok(c) && e@ == old(
                        self,
                    ).mapping_is().sp_map_err(c) && final(self).out_sofar() == old(self).out_sofar()
                        && final(self).carry_now() == old(self).carry_now(),
                }
            }),
    {
        let mut c: Vec<u8> = Vec::new();
        push_bytes(&mut c, self.carry.as_slice());
        push_bytes(&mut c, buf);
        match self.mapping.transform(c.as_slice()) {
            Ok((emit, remain)) => {
                push_bytes(&mut self.out, emit.as_slice());
                self.carry = remain;
                Ok(())
            },
            Err(e) => Err(e),
        }
    }

    /// Hands the buffers over for the final one-shot step.
    #[must_use]
    pub fn finalize(self) -> (r: WriterDeathRattle<M>)
        ensures
            r.mapping_is() == self.mapping_is(),
            r.out_sofar() == self.out_sofar(),
            r.carry_now() == self.carry_now(),
    {
        WriterDeathRattle { mapping: self.mapping, out: self.out, carry: self.carry }
    }
}

/// One-shot consumer of a trailing carry (write side). Produced by
/// `BytesToBytesEncoder::finalize`, used exactly once.
pub struct WriterDeathRattle<M: ChunkMapping> {
    mapping: M,
    out: Vec<u8>,
    carry: Vec<u8>,
}

/// What finishing yields for a given mapping, output and carry: output
/// as is when the carry is empty, otherwise the finalizer's verdict.
pub open spec fn sp_finish<M: ChunkMapping>(m: M, out: Seq<u8>, carry: Seq<u8>) -> Result<
    Seq<u8>,
    ErrModel,
> {
    if carry.len() == 0 {
        Ok(out)
    } else if !m.sp_fin_ok(carry) {
        Err(m.sp_fin_err(carry))
    } else {
        match m.sp_fin(carry) {
            Some(e) => Ok(out + e),
            None => Ok(out),
        }
    }
}

impl<M: ChunkMapping> WriterDeathRattle<M> {
    pub closed spec fn mapping_is(&self) -> M {
        self.mapping
    }

    pub closed spec fn out_sofar(&self) -> Seq<u8> {
        self.out@
    }

    pub closed spec fn carry_now(&self) -> Seq<u8> {
        self.carry@
    }

    /// Drains a non-empty carry through the finalizer — at most once,
    /// since this consumes the rattle — and returns the whole output.
    pub fn finish(self) -> (r: Result<Vec<u8>, CodecError>)
        ensures
            match r {
                Ok(v) => sp_finish(self.mapping_is(), self.out_sofar(), self.carry_now())
                    == Ok::<Seq<u8>, ErrModel>(v@),
                Err(e) => sp_finish(self.mapping_is(), self.out_sofar(), self.carry_now())
                    == Err::<Seq<u8>, ErrModel>(e@),
            },
    {
        let WriterDeathRattle { mapping, mut out, carry } = self;
        if carry.len() == 0 {
            return Ok(out);
        }
        match mapping.finalize_map(carry.as_slice()) {
            Ok(Some(e)) => {
                push_bytes(&mut out, e.as_slice());
                Ok(out)
            },
            Ok(None) => Ok(out),
            Err(e) => Err(e),
        }
    }
}

/// The last word of an adapter: a value whose one consuming method does
/// the final step of a stream.
pub trait DeathRattle<Args, Ret>: Sized {
    fn death_rattle(self, arg: Args) -> Ret;
}

impl<M: ChunkMapping> DeathRattle<(), Result<Vec<u8>, CodecError>> for WriterDeathRattle<M> {
    fn death_rattle(self, arg: ()) -> Result<Vec<u8>, CodecError> {
        self.finish()
    }
}

/// What draining a whole source through the mapping yields, pulling
/// `DECODER_CHUNK`-byte chunks: decoded bytes and the final carry.
pub open spec fn sp_drain<M: ChunkMapping>(m: M, input: Seq<u8>, pos: int, carry: Seq<u8>) -> Result<
    (Seq<u8>, Seq<u8>),
    ErrModel,
>
    decreases input.len() - pos,
{
    if pos < 0 || pos >= input.len() {
        Ok((Seq::empty(), carry))
    } else {
        let k: int = if input.len() - pos < DECODER_CHUNK as int {
            input.len() - pos
        } else {
            DECODER_CHUNK as int
        };
        let c = carry + input.subrange(pos, pos + k);
        if !m.sp_map_ok(c) {
            Err(m.sp_map_err(c))
        } else {
            match sp_drain(m, input, pos + k, m.sp_remain(c)) {
                Err(e) => Err(e),
                Ok(p) => Ok((m.sp_emit(c) + p.0, p.1)),
            }
        }
    }
}

/// Read-side adapter: pulls fixed-size chunks from an in-memory source,
/// decodes the largest complete prefix, and keeps true leftovers as the
/// next carry.
pub struct BytesToBytesDecoder<M: ChunkMapping> {
    mapping: M,
    input: Vec<u8>,
    rpos: usize,
    carry: Vec<u8>,
    need_finalize: bool,
}

impl<M: ChunkMapping> BytesToBytesDecoder<M> {
    pub closed spec fn mapping_is(&self) -> M {
        self.mapping
    }

    pub closed spec fn input_seq(&self) -> Seq<u8> {
        self.input@
    }

    pub closed spec fn pos_now(&self) -> int {
        self.rpos as int
    }

    pub closed spec fn carry_now(&self) -> Seq<u8> {
        self.carry@
    }

    pub closed spec fn needs_fin(&self) -> bool {
        self.need_finalize
    }

    pub open spec fn wf(&self) -> bool {
        0 <= self.pos_now() <= self.input_seq().len()
    }

    /// A decoder over a whole in-memory source.
    pub fn new(input: Vec<u8>, mapping: M) -> (r: Self)
        ensures
            r.mapping_is() == mapping,
            r.input_seq() == input@,
            r.pos_now() == 0,
            r.carry_now() == Seq::<u8>::empty(),
            !r.needs_fin(),
            r.wf(),
    {
        BytesToBytesDecoder { mapping, input, rpos: 0, carry: Vec::new(), need_finalize: false }
    }

    /// Marks whether end-of-input with a pending carry calls for one
    /// last transform, or is data corruption.
    pub fn set_need_finalize(&mut self, need_finalize: bool)
        ensures
            final(self).mapping_is() == old(self).mapping_is(),
            final(self).input_seq() == old(self).input_seq(),
            final(self).pos_now() == old(self).pos_now(),
            final(self).carry_now() == old(self).carry_now(),
            final(self).needs_fin() == need_finalize,
    {
        self.need_finalize = need_finalize;
    }

    /// Decodes the rest of the source. A carry left at end of input is
    /// corrupt data unless this decoder needs a finalize step; then it
    /// stays pending for `finalize`.
    pub fn drain(&mut self) -> (r: Result<Vec<u8>, CodecError>)
        requires
            old(self).wf(),
        ensures
            final(self).wf(),
            final(self).mapping_is() == old(self).mapping_is(),
            final(self).input_seq() == old(self).input_seq(),
            final(self).needs_fin() == old(self).needs_fin(),
            ({
                let s = sp_drain(
                    old(self).mapping_is(),
                    old(self).input_seq(),
                    old(self).pos_now(),
                    old(self).carry_now(),
                );
                match r {
                    Ok(v) => ({
                        &&& s matches Ok(p)
                        &&& v@ == p.0
                        &&& final(self).carry_now() == p.1
                        &&& final(self).pos_now() == old(self).input_seq().len()
                        &&& old(self).needs_fin() || p.1.len() == 0
                    }),
                    Err(e) => (match s {
                        Ok(p) => !old(self).needs_fin() && p.1.len() > 0 && e@
                            == ErrModel::StreamIntegrity,
                        Err(d) => e@ == d,
                    }),
                }
            }),
    {
        let ghost m = self.mapping;
        let ghost input0 = self.input@;
        let ghost pos0 = self.rpos as int;
        let ghost carry0 = self.carry@;
        let mut out: Vec<u8> = Vec::new();
        while self.rpos < self.input.len()
            invariant
                self.wf(),
                self.mapping == old(self).mapping,
                self.input@ == old(self).input@,
                self.need_finalize == old(self).need_finalize,
                m == old(self).mapping,
                input0 == old(self).input@,
                pos0 == old(self).rpos as int,
                carry0 == old(self).carry@,
                sp_drain(m, input0, pos0, carry0) == (match sp_drain(
                    m,
                    input0,
                    self.rpos as int,
                    self.carry@,
                ) {
                    Ok(p) => Ok::<_, ErrModel>((out@ + p.0, p.1)),
                    Err(e) => Err::<(Seq<u8>, Seq<u8>), _>(e),
                }),
            decreases self.input@.len() - self.rpos,
        {
            let k: usize = if self.input.len() - self.rpos < DECODER_CHUNK {
                self.input.len() - self.rpos
            } else {
                DECODER_CHUNK
            };
            let mut c: Vec<u8> = Vec::new();
            push_bytes(&mut c, self.carry.as_slice());
            let chunk = crate::bytes::sub_bytes(self.input.as_slice(), self.rpos, self.rpos + k);
            push_bytes(&mut c, chunk.as_slice());
            let ghost pos_pre = self.rpos as int;
            let ghost out_pre = out@;
            let ghost carry_pre = self.carry@;
            match self.mapping.transform(c.as_slice()) {
                Ok((emit, remain)) => {
                    push_bytes(&mut out, emit.as_slice());
                    self.carry = remain;
                    self.rpos = self.rpos + k;
                    proof {
                        let cs = carry_pre + input0.subrange(pos_pre, pos_pre + k as int);
                        assert(c@ == cs);
                        assert(sp_drain(m, input0, pos_pre, carry_pre) == (match sp_drain(
                            m,
                            input0,
                            pos_pre + k as int,
                            m.sp_remain(cs),
                        ) {
                            Ok(p) => Ok::<_, ErrModel>((m.sp_emit(cs) + p.0, p.1)),
                            Err(e) => Err::<(Seq<u8>, Seq<u8>), _>(e),
                        }));
                        match sp_drain(m, input0, self.rpos as int, self.carry@) {
                            Ok(p) => {
                                assert(out_pre + (m.sp_emit(cs) + p.0) =~= (out_pre + m.sp_emit(
                                    cs,
                                )) + p.0);
                            },
                            Err(_) => {},
                        }
                    }
                },
                Err(e) => {
                    return Err(e);
                },
            }
        }
        if !self.need_finalize && self.carry.len() > 0 {
            return Err(CodecError::StreamIntegrity);
        }
        Ok(out)
    }

    /// Hands the pending carry over for the final one-shot step.
    #[must_use]
    pub fn finalize(self) -> (r: ReaderDeathRattle<M>)
        ensures
            r.mapping_is() == self.mapping_is(),
            r.carry_now() == self.carry_now(),
    {
        ReaderDeathRattle { mapping: self.mapping, carry: self.carry }
    }
}

/// One-shot consumer of a trailing carry (read side): yields the final
/// decoded bytes, empty when no carry was pending.
pub struct ReaderDeathRattle<M: ChunkMapping> {
    mapping: M,
    carry: Vec<u8>,
}

/// What the read-side final step yields: nothing for an empty carry,
/// otherwise the finalizer's verdict on it.
pub open spec fn sp_rattle<M: ChunkMapping>(m: M, carry: Seq<u8>) -> Result<Seq<u8>, ErrModel> {
    if carry.len() == 0 {
        Ok(Seq::empty())
    } else if !m.sp_fin_ok(carry) {
        Err(m.sp_fin_err(carry))
    } else {
        match m.sp_fin(carry) {
            Some(e) => Ok(e),
            None => Ok(Seq::empty()),
        }
    }
}

impl<M: ChunkMapping> ReaderDeathRattle<M> {
    pub closed spec fn mapping_is(&self) -> M {
        self.mapping
    }

    pub closed spec fn carry_now(&self) -> Seq<u8> {
        self.carry@
    }

    /// The final decoded bytes of the stream — at most once, since this
    /// consumes the rattle.
    pub fn finish(self) -> (r: Result<Vec<u8>, CodecError>)
        ensures
            match r {
                Ok(v) => sp_rattle(self.mapping_is(), self.carry_now()) == Ok::<Seq<u8>, ErrModel>(
                    v@,
                ),
                Err(e) => sp_rattle(self.mapping_is(), self.carry_now()) == Err::<
                    Seq<u8>,
                    ErrModel,
                >(e@),
            },
    {
        let ReaderDeathRattle { mapping, carry } = self;
        if carry.len() == 0 {
            return Ok(Vec::new());
        }
        match mapping.finalize_map(carry.as_slice()) {
            Ok(Some(e)) => Ok(e),
            Ok(None) => Ok(Vec::new()),
            Err(e) => Err(e),
        }
    }
}

impl<M: ChunkMapping> DeathRattle<(), Result<Vec<u8>, CodecError>> for ReaderDeathRattle<M> {
    fn death_rattle(self, arg: ()) -> Result<Vec<u8>, CodecError> {
        self.finish()
    }
}

/// Fan-out writer: one write lands in every sink.
pub struct MultiWriter {
    sinks: Vec<Vec<u8>>,
}

impl MultiWriter {
    pub closed spec fn sinks_seq(&self) -> Seq<Seq<u8>> {
        self.sinks.deep_view()
    }

    /// Wraps the given sinks.
    pub fn new(sinks: Vec<Vec<u8>>) -> (r: MultiWriter)
        ensures
            r.sinks_seq() == sinks.deep_view(),
    {
        MultiWriter { sinks }
    }

    /// Appends `buf` to every sink.
    pub fn write(&mut self, buf: &[u8])
        ensures
            final(self).sinks_seq().len() == old(self).sinks_seq().len(),
            forall|i: int|
                0 <= i < old(self).sinks_seq().len() ==> final(self).sinks_seq()[i] == old(
                    self,
                ).sinks_seq()[i] + buf@,
    {
        let n = self.sinks.len();
        let mut updated: Vec<Vec<u8>> = Vec::new();
        let mut i: usize = 0;
        while i < n
            invariant
                0 <= i <= n,
                n == self.sinks@.len(),
                self.sinks.deep_view() == old(self).sinks_seq(),
                updated.deep_view().len() == i as int,
                forall|j: int|
                    0 <= j < i as int ==> updated.deep_view()[j] == old(self).sinks_seq()[j]
                        + buf@,
            decreases n - i,
        {
            let mut s = crate::bytes::copy_bytes(self.sinks[i].as_slice());
            push_bytes(&mut s, buf);
            let ghost pre = updated.deep_view();
            updated.push(s);
            proof {
                assert(s.deep_view() =~= s@);
                assert(self.sinks@[i as int].deep_view() =~= self.sinks@[i as int]@);
                assert forall|j: int| 0 <= j < i as int + 1 implies updated.deep_view()[j] == old(
                    self,
                ).sinks_seq()[j] + buf@ by {
                    if j < i as int {
                        assert(updated.deep_view()[j] == pre[j]);
                    } else {
                        assert(updated.deep_view()[j] == s.deep_view());
                    }
                }
            }
            i += 1;
        }
        self.sinks = updated;
    }

    /// Takes the sinks back.
    pub fn into_sinks(self) -> (r: Vec<Vec<u8>>)
        ensures
            r.deep_view() == self.sinks_seq(),
    {
        self.sinks
    }
}

} // verus!
