//! The resolved option map a stage sees at run time.
//!
//! An option is either a bare switch or a name with a byte-string value.
//! The first character of the name decides the kind: a capital letter
//! means a value option, anything else a switch. That rule is fixed at
//! parse time and the map's well-formedness invariant keeps it.

use vstd::prelude::*;

use crate::bytes::{
    upper_first, sp_parse_i64, sp_parse_u64, parse_i64, parse_u64, bytes_eq, copy_bytes, B_ZERO,
};
use crate::errors::{CodecError, ErrModel};

verus! {

pub struct OptionEntry {
    pub name: Vec<u8>,
    pub value: Option<Vec<u8>>,
}

/// A stage's resolved options: name to switch-presence or value bytes.
/// Later insertions of the same name replace earlier ones, as in the map
/// they model.
pub struct Options {
    entries: Vec<OptionEntry>,
}

/// The value slot of one entry, as the model sees it.
spec fn val_view(v: Option<Vec<u8>>) -> Option<Seq<u8>> {
    match v {
        Some(b) => Some(b@),
        None => None,
    }
}

/// The map denoted by an entry list, later entries winning.
spec fn opt_map(s: Seq<OptionEntry>) -> Map<Seq<u8>, Option<Seq<u8>>>
    decreases s.len(),
{
    if s.len() == 0 {
        Map::empty()
    } else {
        opt_map(s.drop_last()).insert(s.last().name@, val_view(s.last().value))
    }
}

impl View for Options {
    type V = Map<Seq<u8>, Option<Seq<u8>>>;

    closed spec fn view(&self) -> Map<Seq<u8>, Option<Seq<u8>>> {
        opt_map(self.entries@)
    }
}

/// An entry list is well formed when every name is nonempty and carries
/// a value exactly when its first character is a capital letter.
spec fn entry_wf(e: OptionEntry) -> bool {
    e.name@.len() > 0 && (upper_first(e.name@) <==> e.value is Some)
}

proof fn lemma_opt_map_found(s: Seq<OptionEntry>, i: int, n: Seq<u8>)
    requires
        0 <= i < s.len(),
        s[i].name@ == n,
        forall|j: int| i < j < s.len() ==> s[j].name@ != n,
    ensures
        opt_map(s).contains_key(n),
        opt_map(s)[n] == val_view(s[i].value),
    decreases s.len(),
{
    if i == s.len() - 1 {
    } else {
        assert(s.drop_last()[i] == s[i]);
        lemma_opt_map_found(s.drop_last(), i, n);
    }
}

proof fn lemma_opt_map_absent(s: Seq<OptionEntry>, n: Seq<u8>)
    requires
        forall|j: int| 0 <= j < s.len() ==> s[j].name@ != n,
    ensures
        !opt_map(s).contains_key(n),
    decreases s.len(),
{
    if s.len() > 0 {
        assert(forall|j: int| 0 <= j < s.len() - 1 ==> s.drop_last()[j] == #[trigger] s[j]);
        lemma_opt_map_absent(s.drop_last(), n);
    }
}

impl Options {
    /// Every entry respects the name-case rule.
    pub closed spec fn wf(&self) -> bool {
        forall|i: int| 0 <= i < self.entries@.len() ==> entry_wf(#[trigger] self.entries@[i])
    }

    /// An empty option map.
    pub fn new() -> (r: Options)
        ensures
            r@ == Map::<Seq<u8>, Option<Seq<u8>>>::empty(),
            r.wf(),
    {
        Options { entries: Vec::new() }
    }

    /// Records a presence-only switch.
    pub fn insert_switch(&mut self, name: &[u8])
        requires
            old(self).wf(),
            name@.len() > 0,
            !upper_first(name@),
        ensures
            final(self)@ == old(self)@.insert(name@, None),
            final(self).wf(),
    {
        let e = OptionEntry { name: copy_bytes(name), value: None };
        self.entries.push(e);
        proof {
            assert(self.entries@.drop_last() =~= old(self).entries@);
        }
    }

    /// Records a value option.
    pub fn insert_text(&mut self, name: &[u8], value: &[u8])
        requires
            old(self).wf(),
            name@.len() > 0,
            upper_first(name@),
        ensures
            final(self)@ == old(self)@.insert(name@, Some(value@)),
            final(self).wf(),
    {
        let e = OptionEntry { name: copy_bytes(name), value: Some(copy_bytes(value)) };
        self.entries.push(e);
        proof {
            assert(self.entries@.drop_last() =~= old(self).entries@);
        }
    }

    /// Records a value option whose value is the decimal numeral of `value`.
    pub fn insert_text_str(&mut self, name: &[u8], value: u64)
        requires
            old(self).wf(),
            name@.len() > 0,
            upper_first(name@),
        ensures
            final(self)@ == old(self)@.insert(name@, Some(dec_repr(value as nat))),
            final(self).wf(),
    {
        let v = u64_to_dec(value);
        self.insert_text(name, v.as_slice());
    }

    /// Whether a switch of this name is present.
    pub fn get_switch(&self, name: &[u8]) -> (r: bool)
        requires
            self.wf(),
        ensures
            r == self@.contains_key(name@),
    {
        let mut i: usize = self.entries.len();
        while i > 0
            invariant
                i <= self.entries@.len(),
                forall|j: int| i <= j < self.entries@.len() ==> self.entries@[j].name@ != name@,
            decreases i,
        {
            i -= 1;
            if bytes_eq(self.entries[i].name.as_slice(), name) {
                proof {
                    lemma_opt_map_found(self.entries@, i as int, name@);
                }
                return true;
            }
        }
        proof {
            lemma_opt_map_absent(self.entries@, name@);
        }
        false
    }

    /// The raw bytes of a value option, or `None` when absent.
    pub fn get_text_raw(&self, name: &[u8]) -> (r: Option<Vec<u8>>)
        requires
            self.wf(),
            name@.len() > 0,
            upper_first(name@),
        ensures
            match r {
                Some(v) => self@.contains_key(name@) && self@[name@] == Some(v@),
                None => !self@.contains_key(name@),
            },
    {
        let mut i: usize = self.entries.len();
        while i > 0
            invariant
                self.wf(),
                name@.len() > 0,
                upper_first(name@),
                i <= self.entries@.len(),
                forall|j: int| i <= j < self.entries@.len() ==> self.entries@[j].name@ != name@,
            decreases i,
        {
            i -= 1;
            if bytes_eq(self.entries[i].name.as_slice(), name) {
                proof {
                    lemma_opt_map_found(self.entries@, i as int, name@);
                    assert(entry_wf(self.entries@[i as int]));
                }
                let e: &OptionEntry = &self.entries[i];
                proof {
                    assert(e.value is Some);
                }
                match &e.value {
                    Some(v) => {
                        return Some(copy_bytes(v.as_slice()));
                    },
                    None => {
                        return None;
                    },
                }
            }
        }
        proof {
            lemma_opt_map_absent(self.entries@, name@);
        }
        None
    }

    /// The signed number a value option holds: `Ok(None)` when the option
    /// is absent, the offending bytes as a transform error when they are
    /// not a numeral.
    pub fn get_text(&self, name: &[u8]) -> (r: Result<Option<i64>, CodecError>)
        requires
            self.wf(),
            name@.len() > 0,
            upper_first(name@),
        ensures
            match r {
                Ok(v) => sp_get_i64(self@, name@) == Ok::<Option<i64>, ErrModel>(v),
                Err(e) => sp_get_i64(self@, name@) == Err::<Option<i64>, ErrModel>(e@),
            },
    {
        match self.get_text_raw(name) {
            None => Ok(None),
            Some(v) => match parse_i64(v.as_slice()) {
                Some(n) => Ok(Some(n)),
                None => Err(CodecError::Transform(v)),
            },
        }
    }

    /// The unsigned number a value option holds, as `get_text`.
    pub fn get_text_u64(&self, name: &[u8]) -> (r: Result<Option<u64>, CodecError>)
        requires
            self.wf(),
            name@.len() > 0,
            upper_first(name@),
        ensures
            match r {
                Ok(v) => sp_get_u64(self@, name@) == Ok::<Option<u64>, ErrModel>(v),
                Err(e) => sp_get_u64(self@, name@) == Err::<Option<u64>, ErrModel>(e@),
            },
    {
        match self.get_text_raw(name) {
            None => Ok(None),
            Some(v) => match parse_u64(v.as_slice()) {
                Some(n) => Ok(Some(n)),
                None => Err(CodecError::Transform(v)),
            },
        }
    }
}

/// What `get_text` returns on a given map.
pub open spec fn sp_get_i64(m: Map<Seq<u8>, Option<Seq<u8>>>, name: Seq<u8>) -> Result<
    Option<i64>,
    ErrModel,
> {
    if !m.contains_key(name) {
        Ok(None)
    } else {
        match m[name] {
            None => Ok(None),  // unreachable under wf: capital names always hold values
            Some(v) => match sp_parse_i64(v) {
                Some(n) => Ok(Some(n)),
                None => Err(ErrModel::Transform(v)),
            },
        }
    }
}

/// What `get_text_u64` returns on a given map.
pub open spec fn sp_get_u64(m: Map<Seq<u8>, Option<Seq<u8>>>, name: Seq<u8>) -> Result<
    Option<u64>,
    ErrModel,
> {
    if !m.contains_key(name) {
        Ok(None)
    } else {
        match m[name] {
            None => Ok(None),
            Some(v) => match sp_parse_u64(v) {
                Some(n) => Ok(Some(n)),
                None => Err(ErrModel::Transform(v)),
            },
        }
    }
}

/// The decimal numeral of `n`, most significant digit first.
pub open spec fn dec_repr(n: nat) -> Seq<u8>
    decreases n,
{
    if n < 10 {
        seq![(B_ZERO + n) as u8]
    } else {
        dec_repr(n / 10).push((B_ZERO + n % 10) as u8)
    }
}

/// Renders `n` in decimal.
pub fn u128_to_dec(n: u128) -> (r: Vec<u8>)
    ensures
        r@ == dec_repr(n as nat),
{
    let mut rev: Vec<u8> = Vec::new();
    let mut m: u128 = n;
    while m >= 10
        invariant
            dec_repr(n as nat) == dec_repr(m as nat) + rev@.reverse(),
        decreases m,
    {
        let ghost pre = rev@;
        let d: u8 = (m % 10) as u8;
        rev.push(B_ZERO + d);
        proof {
            assert(rev@.reverse() =~= seq![(B_ZERO + (m as nat) % 10) as u8] + pre.reverse());
            assert(dec_repr(m as nat) == dec_repr((m as nat) / 10).push(
                (B_ZERO + (m as nat) % 10) as u8,
            ));
            assert(dec_repr((m as nat) / 10) + rev@.reverse() =~= dec_repr(m as nat)
                + pre.reverse());
        }
        m = m / 10;
    }
    let ghost pre = rev@;
    rev.push(B_ZERO + (m as u8));
    proof {
        assert(rev@.reverse() =~= seq![(B_ZERO + (m as nat)) as u8] + pre.reverse());
        assert(dec_repr(m as nat) == seq![(B_ZERO + (m as nat)) as u8]);
        assert(dec_repr(n as nat) =~= rev@.reverse());
    }
    let mut out: Vec<u8> = Vec::new();
    let mut i: usize = rev.len();
    while i > 0
        invariant
            i <= rev@.len(),
            out@ == rev@.reverse().take(rev@.len() - i),
        decreases i,
    {
        i -= 1;
        out.push(rev[i]);
        proof {
            assert(out@ =~= rev@.reverse().take(rev@.len() - i));
        }
    }
    proof {
        assert(rev@.reverse().take(rev@.len() as int) =~= rev@.reverse());
    }
    out
}

/// Renders `n` in decimal.
pub fn u64_to_dec(n: u64) -> (r: Vec<u8>)
    ensures
        r@ == dec_repr(n as nat),
{
    let mut rev: Vec<u8> = Vec::new();
    let mut m: u64 = n;
    while m >= 10
        invariant
            dec_repr(n as nat) == dec_repr(m as nat) + rev@.reverse(),
        decreases m,
    {
        let ghost pre = rev@;
        let d: u8 = (m % 10) as u8;
        rev.push(B_ZERO + d);
        proof {
            assert(rev@.reverse() =~= seq![(B_ZERO + (m as nat) % 10) as u8] + pre.reverse());
            assert(dec_repr(m as nat) == dec_repr((m as nat) / 10).push(
                (B_ZERO + (m as nat) % 10) as u8,
            ));
            assert(dec_repr((m as nat) / 10) + rev@.reverse() =~= dec_repr(m as nat)
                + pre.reverse());
        }
        m = m / 10;
    }
    let ghost pre = rev@;
    rev.push(B_ZERO + (m as u8));
    proof {
        assert(rev@.reverse() =~= seq![(B_ZERO + (m as nat)) as u8] + pre.reverse());
        assert(dec_repr(m as nat) == seq![(B_ZERO + (m as nat)) as u8]);
        assert(dec_repr(n as nat) =~= rev@.reverse());
    }
    let mut out: Vec<u8> = Vec::new();
    let mut i: usize = rev.len();
    while i > 0
        invariant
            i <= rev@.len(),
            out@ == rev@.reverse().take(rev@.len() - i),
        decreases i,
    {
        i -= 1;
        out.push(rev[i]);
        proof {
            assert(out@ =~= rev@.reverse().take(rev@.len() - i));
        }
    }
    proof {
        assert(rev@.reverse().take(rev@.len() as int) =~= rev@.reverse());
    }
    out
}

} // verus!
