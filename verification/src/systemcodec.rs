//! The process-spawning stage's decisions. Spawning and piping a child
//! process is a driver's business; what command to run and with which
//! arguments — the `C` option, and the `A` option split on spaces with
//! empty words dropped — is decided here, verified.

use vstd::prelude::*;

use crate::bytes::{byte_name, B_SPACE};
use crate::errors::{CodecError, ErrModel};
use crate::options::Options;
use vstd::string::{StringSliceAdditionalSpecFns, StringExecFns};

verus! {

pub const N_UPPER_C: u8 = 67;

pub const N_UPPER_A: u8 = 65;

/// The space-separated words of a byte string, empty words dropped.
pub open spec fn sp_split_args(s: Seq<u8>) -> Seq<Seq<u8>>
    decreases s.len(),
    via sp_split_args_decreases
{
    if s.len() == 0 {
        Seq::empty()
    } else {
        let w = first_word(s);
        let rest = rest_after_word(s);
        if w.len() == 0 {
            sp_split_args(rest)
        } else {
            seq![w] + sp_split_args(rest)
        }
    }
}

#[via_fn]
proof fn sp_split_args_decreases(s: Seq<u8>) {
    if s.len() > 0 {
        lemma_word_end_bounds(s, 0);
    }
}

/// `word_end` stays between its start and the length.
proof fn lemma_word_end_bounds(s: Seq<u8>, from: int)
    requires
        0 <= from <= s.len(),
    ensures
        from <= word_end(s, from) <= s.len(),
    decreases s.len() - from,
{
    if from < s.len() && s[from] != B_SPACE {
        lemma_word_end_bounds(s, from + 1);
    }
}

/// The bytes before the first space.
pub open spec fn first_word(s: Seq<u8>) -> Seq<u8> {
    s.take(word_end(s, 0))
}

/// What follows the first space, or nothing at the end.
pub open spec fn rest_after_word(s: Seq<u8>) -> Seq<u8> {
    if word_end(s, 0) < s.len() {
        s.skip(word_end(s, 0) + 1)
    } else {
        Seq::empty()
    }
}

/// The position of the first space at or after `from`, or the length.
pub open spec fn word_end(s: Seq<u8>, from: int) -> int
    decreases s.len() - from,
{
    if from < 0 || from >= s.len() {
        s.len() as int
    } else if s[from] == B_SPACE {
        from
    } else {
        word_end(s, from + 1)
    }
}

/// What the driver must do for a process stage.
pub struct SystemPlan {
    pub command: Vec<u8>,
    pub args: Vec<Vec<u8>>,
}

/// The process stage; its `run` is a driver's business, its decisions
/// live in `plan`.
#[derive(Default)]
pub struct SystemCodec;

impl SystemCodec {
    /// Decides the command name and argument words: the `C` option is
    /// required, the `A` option is split on spaces with empty words
    /// dropped.
    pub fn plan(&self, options: &Options) -> (r: Result<SystemPlan, CodecError>)
        requires
            options.wf(),
        ensures
            match r {
                Ok(p) => ({
                    &&& options@.contains_key(seq![N_UPPER_C])
                    &&& options@[seq![N_UPPER_C]] == Some(p.command@)
                    &&& p.args.deep_view() == sp_split_args(
                        match options@.contains_key(seq![N_UPPER_A]) {
                            true => match options@[seq![N_UPPER_A]] {
                                Some(v) => v,
                                None => Seq::empty(),
                            },
                            false => Seq::empty(),
                        },
                    )
                }),
                Err(e) => !(options@.contains_key(seq![N_UPPER_C]) && options@[seq![
                    N_UPPER_C,
                ]] is Some) && e@ == ErrModel::Transform(
                    "system: missing required option command name (-C)".spec_bytes(),
                ),
            },
    {
        let c_name = byte_name(N_UPPER_C);
        let command = match options.get_text_raw(c_name.as_slice()) {
            Some(v) => v,
            None => {
                return Err(
                    CodecError::Transform(
                        crate::bytes::copy_bytes(
                            "system: missing required option command name (-C)".as_bytes(),
                        ),
                    ),
                );
            },
        };
        let a_name = byte_name(N_UPPER_A);
        let raw = match options.get_text_raw(a_name.as_slice()) {
            Some(v) => v,
            None => Vec::new(),
        };
        proof {
            if !options@.contains_key(seq![N_UPPER_A]) {
                assert(raw@ =~= Seq::<u8>::empty());
            }
        }
        let args = split_args(raw.as_slice());
        Ok(SystemPlan { command, args })
    }
}

/// Splits on spaces, dropping empty words.
fn split_args(s: &[u8]) -> (r: Vec<Vec<u8>>)
    ensures
        r.deep_view() == sp_split_args(s@),
{
    let r = split_args_from(s, 0);
    proof {
        assert(s@.skip(0) =~= s@);
    }
    r
}

fn split_args_from(s: &[u8], from: usize) -> (r: Vec<Vec<u8>>)
    requires
        from <= s@.len(),
    ensures
        r.deep_view() == sp_split_args(s@.skip(from as int)),
    decreases s@.len() - from,
{
    let ghost tail = s@.skip(from as int);
    if from == s.len() {
        let r: Vec<Vec<u8>> = Vec::new();
        proof {
            assert(tail =~= Seq::<u8>::empty());
            assert(r.deep_view() =~= sp_split_args(tail));
        }
        return r;
    }
    // find the next space
    let mut j: usize = from;
    while j < s.len() && s[j] != B_SPACE
        invariant
            from <= j <= s@.len(),
            forall|k: int| from <= k < j ==> s@[k] != B_SPACE,
        decreases s@.len() - j,
    {
        j += 1;
    }
    proof {
        lemma_word_end(s@, from as int, j as int);
        assert(word_end(tail, 0) == j - from) by {
            lemma_word_end_shift(s@, from as int);
        }
    }
    let word = crate::bytes::sub_bytes(s, from, j);
    let next: usize = if j < s.len() {
        j + 1
    } else {
        j
    };
    let mut rest = split_args_from(s, next);
    proof {
        assert(first_word(tail) =~= word@);
        if j < s@.len() {
            assert(rest_after_word(tail) =~= s@.skip(next as int));
        } else {
            assert(rest_after_word(tail) =~= Seq::<u8>::empty());
            assert(s@.skip(next as int) =~= Seq::<u8>::empty());
        }
    }
    if word.len() == 0 {
        rest
    } else {
        let ghost rest0 = rest.deep_view();
        let mut r: Vec<Vec<u8>> = Vec::new();
        r.push(word);
        r.append(&mut rest);
        proof {
            assert(r.deep_view() =~~= seq![first_word(tail)] + rest0);
        }
        r
    }
}

/// The scan that stops at the first space computes `word_end`.
proof fn lemma_word_end(s: Seq<u8>, from: int, j: int)
    requires
        0 <= from <= j <= s.len(),
        forall|k: int| from <= k < j ==> s[k] != B_SPACE,
        j < s.len() ==> s[j] == B_SPACE,
    ensures
        word_end(s, from) == j,
    decreases j - from,
{
    if from < j {
        lemma_word_end(s, from + 1, j);
    }
}

/// `word_end` over a suffix is the shifted `word_end`.
proof fn lemma_word_end_shift(s: Seq<u8>, from: int)
    requires
        0 <= from <= s.len(),
    ensures
        word_end(s.skip(from), 0) == word_end(s, from) - from,
    decreases s.len() - from,
{
    lemma_word_end_shift_rec(s, from, 0);
}

proof fn lemma_word_end_shift_rec(s: Seq<u8>, from: int, k: int)
    requires
        0 <= from <= s.len(),
        0 <= k <= s.len() - from,
    ensures
        word_end(s.skip(from), k) == word_end(s, from + k) - from,
    decreases s.len() - from - k,
{
    let t = s.skip(from);
    if k >= t.len() {
    } else {
        assert(t[k] == s[from + k]);
        if s[from + k] == B_SPACE {
        } else {
            lemma_word_end_shift_rec(s, from, k + 1);
        }
    }
}

} // verus!
