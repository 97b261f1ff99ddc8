//! The value model: decimal numerals carried as bytes, and a `Reading`,
//! one immutable snapshot of the four measured quantities.

use vstd::prelude::*;

verus! {

/// ASCII codes of the bytes the formats are built from.
pub const DIGIT_ZERO: u8 = 48;

pub const DIGIT_NINE: u8 = 57;

pub const DOT: u8 = 46;

pub const MINUS: u8 = 45;

pub const COMMA: u8 = 44;

pub const SPACE: u8 = 32;

pub const EQUALS: u8 = 61;

/// `b` is an ASCII decimal digit.
pub open spec fn spec_is_digit(b: u8) -> bool {
    DIGIT_ZERO <= b && b <= DIGIT_NINE
}

/// How many dots a byte sequence contains.
pub open spec fn dot_count(s: Seq<u8>) -> nat
    decreases s.len(),
{
    if s.len() == 0 {
        0
    } else {
        dot_count(s.drop_last()) + if s.last() == DOT { 1nat } else { 0nat }
    }
}

/// An unsigned decimal numeral: digits with at most one interior dot,
/// starting and ending on a digit.
pub open spec fn spec_numeral_body(s: Seq<u8>) -> bool {
    &&& s.len() > 0
    &&& (forall|i: int| 0 <= i < s.len() ==> spec_is_digit(s[i]) || s[i] == DOT)
    &&& spec_is_digit(s[0])
    &&& spec_is_digit(s[s.len() - 1])
    &&& dot_count(s) <= 1
}

/// A decimal numeral with an optional leading minus sign: the shape in
/// which every finite sensor value travels through the library.
pub open spec fn spec_is_numeral(s: Seq<u8>) -> bool {
    if s.len() > 0 && s[0] == MINUS {
        spec_numeral_body(s.skip(1))
    } else {
        spec_numeral_body(s)
    }
}

pub fn is_digit(b: u8) -> (r: bool)
    ensures
        r == spec_is_digit(b),
{
    DIGIT_ZERO <= b && b <= DIGIT_NINE
}

proof fn lemma_dot_count_push(s: Seq<u8>, b: u8)
    ensures
        dot_count(s.push(b)) == dot_count(s) + if b == DOT { 1nat } else { 0nat },
{
    assert(s.push(b).drop_last() =~= s);
}

/// Decides `spec_numeral_body` on the bytes of `s` from `start` on.
fn check_numeral_body(s: &Vec<u8>, start: usize) -> (r: bool)
    requires
        start <= s@.len(),
    ensures
        r == spec_numeral_body(s@.skip(start as int)),
{
    let n = s.len();
    if start == n {
        return false;
    }
    if !is_digit(s[start]) || !is_digit(s[n - 1]) {
        assert(s@.skip(start as int)[0] == s@[start as int]);
        assert(s@.skip(start as int).last() == s@[n - 1]);
        return false;
    }
    let mut i = start;
    let mut dots: usize = 0;
    while i < n
        invariant
            start <= i <= n,
            n == s@.len(),
            dots == dot_count(s@.subrange(start as int, i as int)),
            dots <= i,
            forall|j: int| start <= j < i ==> spec_is_digit(s@[j]) || s@[j] == DOT,
        decreases n - i,
    {
        let b = s[i];
        if !is_digit(b) && b != DOT {
            assert(s@.skip(start as int)[i - start] == s@[i as int]);
            return false;
        }
        proof {
            assert(s@.subrange(start as int, i + 1) =~= s@.subrange(
                start as int,
                i as int,
            ).push(s@[i as int]));
            lemma_dot_count_push(s@.subrange(start as int, i as int), s@[i as int]);
        }
        if b == DOT {
            dots = dots + 1;
        }
        i = i + 1;
    }
    proof {
        assert(s@.subrange(start as int, n as int) =~= s@.skip(start as int));
        assert(forall|j: int|
            0 <= j < s@.skip(start as int).len() ==> s@.skip(start as int)[j] == s@[j + start]);
        assert(s@.skip(start as int)[0] == s@[start as int]);
        assert(s@.skip(start as int).last() == s@[n - 1]);
    }
    dots <= 1
}

/// Decides `spec_is_numeral`: the textual shape of a finite decimal value.
pub fn is_numeral(s: &Vec<u8>) -> (r: bool)
    ensures
        r == spec_is_numeral(s@),
{
    if s.len() > 0 && s[0] == MINUS {
        check_numeral_body(s, 1)
    } else {
        assert(s@.skip(0) =~= s@);
        check_numeral_body(s, 0)
    }
}

/// One complete round of measurements, captured together. Each field is
/// the decimal rendering of the sensed value; the snapshot is a plain
/// owned value, so two rounds never share a buffer.
#[derive(Debug)]
pub struct Reading {
    pub temperature: Vec<u8>,
    pub humidity: Vec<u8>,
    pub pressure: Vec<u8>,
    pub light: Vec<u8>,
}

impl Reading {
    /// Every field carries a finite decimal numeral.
    pub open spec fn wf(self) -> bool {
        &&& spec_is_numeral(self.temperature@)
        &&& spec_is_numeral(self.humidity@)
        &&& spec_is_numeral(self.pressure@)
        &&& spec_is_numeral(self.light@)
    }

    /// Captures one snapshot. The values are taken as they come, without
    /// validation; `is_well_formed` tells whether all four are finite
    /// decimal numerals.
    pub fn new(temperature: Vec<u8>, humidity: Vec<u8>, pressure: Vec<u8>, light: Vec<u8>) -> (r:
        Reading)
        ensures
            r.temperature@ == temperature@,
            r.humidity@ == humidity@,
            r.pressure@ == pressure@,
            r.light@ == light@,
    {
        Reading { temperature, humidity, pressure, light }
    }

    pub fn is_well_formed(&self) -> (r: bool)
        ensures
            r == self.wf(),
    {
        is_numeral(&self.temperature) && is_numeral(&self.humidity) && is_numeral(&self.pressure)
            && is_numeral(&self.light)
    }
}

} // verus!
