//! Small executable helpers on byte strings, with exact contracts.
//!
//! Tokens, option names and option values are all byte strings here, so
//! these helpers are shared by the tokenizer, the parser and the stages.

use vstd::prelude::*;
use vstd::string::StrSliceExecFns;
use vstd::utf8::{decode_utf8, valid_utf8};

verus! {

// Byte values of the ASCII characters the command language gives meaning to.
pub const B_PLUS: u8 = 43;

pub const B_MINUS: u8 = 45;

pub const B_ZERO: u8 = 48;

pub const B_NINE: u8 = 57;

pub const B_UPPER_A: u8 = 65;

pub const B_UPPER_Z: u8 = 90;

pub const B_OPEN_BRACKET: u8 = 91;

pub const B_CLOSE_BRACKET: u8 = 93;

pub const B_NEWLINE: u8 = 10;

pub const B_SPACE: u8 = 32;

pub const B_PERCENT: u8 = 37;

/// An ASCII capital letter.
pub open spec fn is_upper_byte(b: u8) -> bool {
    B_UPPER_A <= b && b <= B_UPPER_Z
}

/// Whether the standard library's Unicode tables call this character
/// uppercase; a property of the character alone.
pub uninterp spec fn char_is_uppercase_of(c: char) -> bool;

/// Relies on `char::is_uppercase`: a Unicode-table lookup, a function
/// of the character alone.
#[verifier::external_body]
fn char_upper(c: char) -> (r: bool)
    ensures
        r == char_is_uppercase_of(c),
{
    c.is_uppercase()
}

/// Relies on `std::str::from_utf8`: succeeds exactly on valid UTF-8
/// and yields the characters those bytes encode.
#[verifier::external_body]
pub(crate) fn utf8_to_str(b: &[u8]) -> (r: Option<&str>)
    ensures
        match r {
            Some(s) => valid_utf8(b@) && s@ == decode_utf8(b@),
            None => !valid_utf8(b@),
        },
{
    std::str::from_utf8(b).ok()
}

/// Whether an option name's first character is uppercase — a name
/// starting so takes a value, any other name is a bare switch. An
/// ASCII first byte answers directly; otherwise the name must be valid
/// UTF-8 and its first character uppercase by the Unicode tables.
pub open spec fn upper_first(n: Seq<u8>) -> bool {
    if n.len() == 0 {
        false
    } else if n[0] < 128 {
        is_upper_byte(n[0])
    } else {
        valid_utf8(n) && char_is_uppercase_of(decode_utf8(n)[0])
    }
}

/// Decides an option name's kind from its first character.
pub fn upper_first_exec(name: &[u8]) -> (r: bool)
    requires
        name@.len() > 0,
    ensures
        r == upper_first(name@),
{
    if name[0] < 128 {
        B_UPPER_A <= name[0] && name[0] <= B_UPPER_Z
    } else {
        match utf8_to_str(name) {
            Some(s) => {
                proof {
                    assert(decode_utf8(name@).len() >= 1);
                }
                let c = s.get_char(0);
                char_upper(c)
            },
            None => false,
        }
    }
}

/// Decimal digit.
pub open spec fn is_digit_byte(b: u8) -> bool {
    B_ZERO <= b && b <= B_NINE
}

/// The number denoted by a digit-only byte string, most significant first.
pub open spec fn dec_val(s: Seq<u8>) -> nat
    decreases s.len(),
{
    if s.len() == 0 {
        0
    } else {
        (dec_val(s.drop_last()) * 10 + (s.last() - B_ZERO)) as nat
    }
}

pub open spec fn all_digits(s: Seq<u8>) -> bool {
    forall|i: int| 0 <= i < s.len() ==> is_digit_byte(#[trigger] s[i])
}

/// The digit part of a numeral: everything after an optional single
/// leading sign.
pub open spec fn dec_digits_part(s: Seq<u8>) -> Seq<u8> {
    if s.len() > 0 && (s[0] == B_PLUS || s[0] == B_MINUS) {
        s.drop_first()
    } else {
        s
    }
}

/// Whether a byte string is a well-formed unsigned numeral: an optional
/// `+` sign, then at least one digit, with a value that fits in `u64`.
pub open spec fn sp_parse_u64(s: Seq<u8>) -> Option<u64> {
    let ds = dec_digits_part(s);
    if s.len() > 0 && s[0] != B_MINUS && ds.len() > 0 && all_digits(ds) && dec_val(ds) <= u64::MAX {
        Some(dec_val(ds) as u64)
    } else {
        None
    }
}

/// Whether a byte string is a well-formed signed numeral whose value fits
/// in `i64`: an optional sign, then at least one digit.
pub open spec fn sp_parse_i64(s: Seq<u8>) -> Option<i64> {
    let ds = dec_digits_part(s);
    if ds.len() > 0 && all_digits(ds) {
        if s[0] == B_MINUS {
            if dec_val(ds) <= i64::MAX as nat + 1 {
                Some((-(dec_val(ds) as int)) as i64)
            } else {
                None
            }
        } else {
            if dec_val(ds) <= i64::MAX as nat {
                Some(dec_val(ds) as i64)
            } else {
                None
            }
        }
    } else {
        None
    }
}

/// A one-byte name, for option lookups.
pub fn byte_name(b: u8) -> (r: Vec<u8>)
    ensures
        r@ == seq![b],
{
    let mut r: Vec<u8> = Vec::new();
    r.push(b);
    proof {
        assert(r@ =~= seq![b]);
    }
    r
}

/// A two-byte name, for option lookups.
pub fn byte_name2(a: u8, b: u8) -> (r: Vec<u8>)
    ensures
        r@ == seq![a, b],
{
    let mut r: Vec<u8> = Vec::new();
    r.push(a);
    r.push(b);
    proof {
        assert(r@ =~= seq![a, b]);
    }
    r
}

/// Byte-string equality.
pub fn bytes_eq(a: &[u8], b: &[u8]) -> (r: bool)
    ensures
        r == (a@ == b@),
{
    if a.len() != b.len() {
        assert(a@ != b@) by {
            assert(a@.len() != b@.len());
        }
        return false;
    }
    let mut i: usize = 0;
    while i < a.len()
        invariant
            0 <= i <= a.len(),
            a@.len() == b@.len(),
            forall|j: int| 0 <= j < i ==> a@[j] == b@[j],
        decreases a.len() - i,
    {
        if a[i] != b[i] {
            return false;
        }
        i += 1;
    }
    proof {
        assert(a@ =~= b@);
    }
    true
}

/// A fresh copy of a byte string.
pub fn copy_bytes(v: &[u8]) -> (r: Vec<u8>)
    ensures
        r@ == v@,
{
    let mut r: Vec<u8> = Vec::new();
    let mut i: usize = 0;
    while i < v.len()
        invariant
            0 <= i <= v.len(),
            r@ == v@.take(i as int),
        decreases v.len() - i,
    {
        r.push(v[i]);
        proof {
            assert(r@ =~= v@.take(i + 1 as int));
        }
        i += 1;
    }
    proof {
        assert(v@.take(v@.len() as int) =~= v@);
    }
    r
}

/// Appends a byte string to a growing output buffer.
pub fn push_bytes(out: &mut Vec<u8>, v: &[u8])
    ensures
        final(out)@ == old(out)@ + v@,
{
    let mut i: usize = 0;
    while i < v.len()
        invariant
            0 <= i <= v.len(),
            out@ == old(out)@ + v@.take(i as int),
        decreases v.len() - i,
    {
        out.push(v[i]);
        proof {
            assert(old(out)@ + v@.take(i as int) + seq![v@[i as int]] =~= old(out)@ + v@.take(
                i + 1 as int,
            ));
        }
        i += 1;
    }
    proof {
        assert(old(out)@ + v@.take(v@.len() as int) =~= old(out)@ + v@);
    }
}

/// The bytes of `v` from `from` (inclusive) to `to` (exclusive).
pub fn sub_bytes(v: &[u8], from: usize, to: usize) -> (r: Vec<u8>)
    requires
        from <= to <= v@.len(),
    ensures
        r@ == v@.subrange(from as int, to as int),
{
    let mut r: Vec<u8> = Vec::new();
    let mut i: usize = from;
    while i < to
        invariant
            from <= i <= to <= v@.len(),
            r@ == v@.subrange(from as int, i as int),
        decreases to - i,
    {
        r.push(v[i]);
        proof {
            assert(r@ =~= v@.subrange(from as int, i + 1 as int));
        }
        i += 1;
    }
    r
}

/// Parses an unsigned decimal numeral, exactly when `sp_parse_u64` accepts it.
pub fn parse_u64(s: &[u8]) -> (r: Option<u64>)
    ensures
        r == sp_parse_u64(s@),
{
    if s.len() == 0 || s[0] == B_MINUS {
        return None;
    }
    let start: usize = if s[0] == B_PLUS {
        1
    } else {
        0
    };
    assert(dec_digits_part(s@) =~= s@.subrange(start as int, s@.len() as int));
    parse_dec_digits(s, start)
}

/// Parses the digit-only tail `s[start..]`; `None` on a non-digit, an
/// empty tail, or overflow.
fn parse_dec_digits(s: &[u8], start: usize) -> (r: Option<u64>)
    requires
        start <= s@.len(),
    ensures
        ({
            let ds = s@.subrange(start as int, s@.len() as int);
            if ds.len() > 0 && all_digits(ds) && dec_val(ds) <= u64::MAX {
                r == Some(dec_val(ds) as u64)
            } else {
                r == None::<u64>
            }
        }),
{
    if s.len() == start {
        return None;
    }
    let mut acc: u64 = 0;
    let mut i: usize = start;
    while i < s.len()
        invariant
            start <= i <= s@.len(),
            all_digits(s@.subrange(start as int, i as int)),
            acc == dec_val(s@.subrange(start as int, i as int)),
        decreases s.len() - i,
    {
        let b = s[i];
        if b < B_ZERO || b > B_NINE {
            assert(!all_digits(s@.subrange(start as int, s@.len() as int))) by {
                assert(s@.subrange(start as int, s@.len() as int)[i - start] == s@[i as int]);
            }
            return None;
        }
        let d: u64 = (b - B_ZERO) as u64;
        let ghost pre = s@.subrange(start as int, i as int);
        let ghost cur = s@.subrange(start as int, i + 1 as int);
        proof {
            assert(cur.drop_last() =~= pre);
            assert(cur.last() == s@[i as int]);
        }
        if acc > (u64::MAX - d) / 10 {
            proof {
                let ds = s@.subrange(start as int, s@.len() as int);
                if all_digits(ds) && dec_val(ds) <= u64::MAX {
                    assert(acc * 10 + d > u64::MAX) by (nonlinear_arith)
                        requires
                            acc > (u64::MAX - d) / 10,
                            0 <= d <= 9,
                            acc >= 0,
                    ;
                    assert(dec_val(cur) == acc * 10 + d);
                    lemma_dec_val_monotonic(cur, ds);
                }
            }
            return None;
        }
        acc = acc * 10 + d;
        assert(all_digits(cur)) by {
            assert(forall|j: int|
                0 <= j < cur.len() - 1 ==> cur[j] == #[trigger] pre[j] && is_digit_byte(pre[j]));
        }
        i += 1;
    }
    proof {
        assert(s@.subrange(start as int, i as int) =~= s@.subrange(start as int, s@.len() as int));
    }
    Some(acc)
}

/// A longer digit string denotes at least as large a value.
proof fn lemma_dec_val_monotonic(p: Seq<u8>, s: Seq<u8>)
    requires
        p.len() <= s.len(),
        forall|i: int| 0 <= i < p.len() ==> p[i] == s[i],
        all_digits(s),
    ensures
        dec_val(p) <= dec_val(s),
    decreases s.len(),
{
    if p.len() == s.len() {
        assert(p =~= s);
    } else {
        assert(all_digits(s.drop_last())) by {
            assert(forall|i: int|
                0 <= i < s.len() - 1 ==> s.drop_last()[i] == #[trigger] s[i] && is_digit_byte(
                    s[i],
                ));
        }
        lemma_dec_val_monotonic(p, s.drop_last());
        assert(is_digit_byte(s.last()));
        assert(dec_val(s) == dec_val(s.drop_last()) * 10 + (s.last() - B_ZERO));
        assert(dec_val(s.drop_last()) * 10 >= dec_val(s.drop_last())) by (nonlinear_arith)
            requires
                dec_val(s.drop_last()) >= 0,
        ;
    }
}

/// Parses a signed decimal numeral, exactly when `sp_parse_i64` accepts it.
pub fn parse_i64(s: &[u8]) -> (r: Option<i64>)
    ensures
        r == sp_parse_i64(s@),
{
    if s.len() == 0 {
        return None;
    }
    let neg = s[0] == B_MINUS;
    let start: usize = if neg || s[0] == B_PLUS {
        1
    } else {
        0
    };
    assert(dec_digits_part(s@) =~= s@.subrange(start as int, s@.len() as int));
    let ghost ds = dec_digits_part(s@);
    match parse_dec_digits_bounded(s, start, if neg {
        i64::MAX as u64 + 1
    } else {
        i64::MAX as u64
    }) {
        Some(v) => {
            if neg {
                if v == i64::MAX as u64 + 1 {
                    Some(i64::MIN)
                } else {
                    Some(-(v as i64))
                }
            } else {
                Some(v as i64)
            }
        },
        None => None,
    }
}

/// Like `parse_dec_digits`, with an explicit bound in place of `u64::MAX`.
fn parse_dec_digits_bounded(s: &[u8], start: usize, bound: u64) -> (r: Option<u64>)
    requires
        start <= s@.len(),
    ensures
        ({
            let ds = s@.subrange(start as int, s@.len() as int);
            if ds.len() > 0 && all_digits(ds) && dec_val(ds) <= bound {
                r == Some(dec_val(ds) as u64)
            } else {
                r == None::<u64>
            }
        }),
{
    match parse_dec_digits(s, start) {
        Some(v) => {
            if v <= bound {
                Some(v)
            } else {
                None
            }
        },
        None => {
            proof {
                let ds = s@.subrange(start as int, s@.len() as int);
                if ds.len() > 0 && all_digits(ds) && dec_val(ds) <= bound {
                    assert(dec_val(ds) <= u64::MAX);
                }
            }
            None
        },
    }
}

} // verus!
