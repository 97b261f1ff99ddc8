//! The textual line format of the time-series database: one measurement
//! name, one tag pair, and the four numeric fields of a `Reading`, in a
//! fixed key order. Encoding and decoding are exact inverses on
//! well-formed inputs, which `lemma_line_round_trip` proves.

use vstd::prelude::*;

use crate::model::{spec_is_numeral, Reading, COMMA, EQUALS, SPACE};

verus! {

/// The bytes of "temperature".
pub open spec fn spec_key_temperature() -> Seq<u8> {
    seq![116u8, 101u8, 109u8, 112u8, 101u8, 114u8, 97u8, 116u8, 117u8, 114u8, 101u8]
}

/// The bytes of "humidity".
pub open spec fn spec_key_humidity() -> Seq<u8> {
    seq![104u8, 117u8, 109u8, 105u8, 100u8, 105u8, 116u8, 121u8]
}

/// The bytes of "pressure".
pub open spec fn spec_key_pressure() -> Seq<u8> {
    seq![112u8, 114u8, 101u8, 115u8, 115u8, 117u8, 114u8, 101u8]
}

/// The bytes of "light".
pub open spec fn spec_key_light() -> Seq<u8> {
    seq![108u8, 105u8, 103u8, 104u8, 116u8]
}

fn key_temperature() -> (r: Vec<u8>)
    ensures
        r@ == spec_key_temperature(),
{
    let v: Vec<u8> = vec![116u8, 101u8, 109u8, 112u8, 101u8, 114u8, 97u8, 116u8, 117u8, 114u8, 101u8];
    proof {
        assert(v@ =~= spec_key_temperature());
    }
    v
}

fn key_humidity() -> (r: Vec<u8>)
    ensures
        r@ == spec_key_humidity(),
{
    let v: Vec<u8> = vec![104u8, 117u8, 109u8, 105u8, 100u8, 105u8, 116u8, 121u8];
    proof {
        assert(v@ =~= spec_key_humidity());
    }
    v
}

fn key_pressure() -> (r: Vec<u8>)
    ensures
        r@ == spec_key_pressure(),
{
    let v: Vec<u8> = vec![112u8, 114u8, 101u8, 115u8, 115u8, 117u8, 114u8, 101u8];
    proof {
        assert(v@ =~= spec_key_pressure());
    }
    v
}

fn key_light() -> (r: Vec<u8>)
    ensures
        r@ == spec_key_light(),
{
    let v: Vec<u8> = vec![108u8, 105u8, 103u8, 104u8, 116u8];
    proof {
        assert(v@ =~= spec_key_light());
    }
    v
}

/// One `key=value` pair.
pub open spec fn spec_pair(k: Seq<u8>, v: Seq<u8>) -> Seq<u8> {
    k + seq![EQUALS] + v
}

/// The whole encoded point: measurement, one tag pair, then the four
/// fields keyed `temperature`, `humidity`, `pressure`, `light`, in that
/// order.
pub open spec fn spec_encode_line(m: Seq<u8>, tk: Seq<u8>, tv: Seq<u8>, r: Reading) -> Seq<u8> {
    m + seq![COMMA] + spec_pair(tk, tv) + seq![SPACE] + spec_pair(
        spec_key_temperature(),
        r.temperature@,
    ) + seq![COMMA] + spec_pair(spec_key_humidity(), r.humidity@) + seq![COMMA] + spec_pair(
        spec_key_pressure(),
        r.pressure@,
    ) + seq![COMMA] + spec_pair(spec_key_light(), r.light@)
}

/// Appends a copy of `part` to `out`.
pub(crate) fn append_bytes(out: &mut Vec<u8>, part: &Vec<u8>)
    ensures
        final(out)@ == old(out)@ + part@,
{
    let ghost base = old(out)@;
    let mut i: usize = 0;
    while i < part.len()
        invariant
            i <= part@.len(),
            out@ == base + part@.take(i as int),
        decreases part@.len() - i,
    {
        out.push(part[i]);
        proof {
            assert(part@.take(i + 1) =~= part@.take(i as int).push(part@[i as int]));
        }
        i = i + 1;
    }
    proof {
        assert(part@.take(part@.len() as int) =~= part@);
    }
}

/// Serializes a `Reading` to the line format under the given measurement
/// name and tag pair. The values are written exactly as the `Reading`
/// carries them, without validation.
pub fn encode_line(measurement: &Vec<u8>, tag_key: &Vec<u8>, tag_value: &Vec<u8>, reading: &Reading) -> (r: Vec<u8>)
    ensures
        r@ == spec_encode_line(measurement@, tag_key@, tag_value@, *reading),
{
    let mut out: Vec<u8> = Vec::new();
    append_bytes(&mut out, measurement);
    out.push(COMMA);
    append_bytes(&mut out, tag_key);
    out.push(EQUALS);
    append_bytes(&mut out, tag_value);
    out.push(SPACE);
    let kt = key_temperature();
    append_bytes(&mut out, &kt);
    out.push(EQUALS);
    append_bytes(&mut out, &reading.temperature);
    out.push(COMMA);
    let kh = key_humidity();
    append_bytes(&mut out, &kh);
    out.push(EQUALS);
    append_bytes(&mut out, &reading.humidity);
    out.push(COMMA);
    let kp = key_pressure();
    append_bytes(&mut out, &kp);
    out.push(EQUALS);
    append_bytes(&mut out, &reading.pressure);
    out.push(COMMA);
    let kl = key_light();
    append_bytes(&mut out, &kl);
    out.push(EQUALS);
    append_bytes(&mut out, &reading.light);
    proof {
        assert(out@ =~= spec_encode_line(measurement@, tag_key@, tag_value@, *reading));
    }
    out
}

/// Index of the first occurrence of `c` in `s`, or `s.len()` if absent.
pub open spec fn first_index(s: Seq<u8>, c: u8) -> nat
    decreases s.len(),
{
    if s.len() == 0 {
        0
    } else if s[0] == c {
        0
    } else {
        1 + first_index(s.skip(1), c)
    }
}

proof fn lemma_first_index(s: Seq<u8>, c: u8)
    ensures
        first_index(s, c) <= s.len(),
        first_index(s, c) < s.len() ==> s[first_index(s, c) as int] == c,
        forall|j: int| 0 <= j < first_index(s, c) ==> s[j] != c,
    decreases s.len(),
{
    if s.len() > 0 && s[0] != c {
        lemma_first_index(s.skip(1), c);
        assert(forall|j: int| 1 <= j < s.len() ==> s[j] == s.skip(1)[j - 1]);
    }
}

/// `first_index` is pinned by its two defining facts: no `c` before `i`,
/// and `c` at `i` (or `i` the length).
proof fn lemma_first_index_is(s: Seq<u8>, c: u8, i: int)
    requires
        0 <= i <= s.len(),
        forall|j: int| 0 <= j < i ==> s[j] != c,
        i < s.len() ==> s[i] == c,
    ensures
        first_index(s, c) == i,
{
    lemma_first_index(s, c);
    if first_index(s, c) < i {
        assert(s[first_index(s, c) as int] == c);
    } else if i < first_index(s, c) {
        assert(s[i] != c);
    }
}

/// Splits `key=value` at the first equals sign; `None` when there is none.
pub open spec fn spec_split_pair(s: Seq<u8>) -> Option<(Seq<u8>, Seq<u8>)> {
    let i = first_index(s, EQUALS);
    if i < s.len() {
        Some((s.take(i as int), s.skip(i + 1 as int)))
    } else {
        None
    }
}

/// Splits a comma-separated list of `key=value` pairs; `None` as soon as
/// one part has no equals sign.
pub open spec fn spec_parse_fields(s: Seq<u8>) -> Option<Seq<(Seq<u8>, Seq<u8>)>>
    decreases s.len(),
{
    let i = first_index(s, COMMA);
    if i >= s.len() {
        match spec_split_pair(s) {
            Some(p) => Some(seq![p]),
            None => None,
        }
    } else {
        match spec_split_pair(s.take(i as int)) {
            Some(p) => match spec_parse_fields(s.skip(i + 1 as int)) {
                Some(rest) => Some(seq![p] + rest),
                None => None,
            },
            None => None,
        }
    }
}

/// A decoded point, at the specification level.
#[verifier::ext_equal]
pub struct SpecPoint {
    pub measurement: Seq<u8>,
    pub tag_key: Seq<u8>,
    pub tag_value: Seq<u8>,
    pub fields: Seq<(Seq<u8>, Seq<u8>)>,
}

/// Decodes one line: measurement up to the first comma, one tag pair up
/// to the first space, then the fields. `None` when a separator is
/// missing.
pub open spec fn spec_parse_line(s: Seq<u8>) -> Option<SpecPoint> {
    let sp = first_index(s, SPACE);
    if sp >= s.len() {
        None
    } else {
        let header = s.take(sp as int);
        let rest = s.skip(sp + 1 as int);
        let ci = first_index(header, COMMA);
        if ci >= header.len() {
            None
        } else {
            match spec_split_pair(header.skip(ci + 1 as int)) {
                Some(tag) => match spec_parse_fields(rest) {
                    Some(fs) => Some(
                        SpecPoint {
                            measurement: header.take(ci as int),
                            tag_key: tag.0,
                            tag_value: tag.1,
                            fields: fs,
                        },
                    ),
                    None => None,
                },
                None => None,
            }
        }
    }
}

/// A decoded point: the measurement name, the tag pair, and the field
/// pairs in the order they stand on the line.
pub struct ParsedPoint {
    pub measurement: Vec<u8>,
    pub tag_key: Vec<u8>,
    pub tag_value: Vec<u8>,
    pub fields: Vec<(Vec<u8>, Vec<u8>)>,
}

/// The mathematical value of a list of byte-string pairs.
pub open spec fn spec_pairs_view(v: Seq<(Vec<u8>, Vec<u8>)>) -> Seq<(Seq<u8>, Seq<u8>)> {
    Seq::new(v.len(), |i: int| (v[i].0@, v[i].1@))
}

impl ParsedPoint {
    /// The decoded point this value stands for.
    pub open spec fn view_point(self) -> SpecPoint {
        SpecPoint {
            measurement: self.measurement@,
            tag_key: self.tag_key@,
            tag_value: self.tag_value@,
            fields: spec_pairs_view(self.fields@),
        }
    }
}

/// Finds the first occurrence of `c` in `s`.
fn find_first(s: &Vec<u8>, c: u8) -> (r: usize)
    ensures
        r == first_index(s@, c),
        r <= s@.len(),
{
    let n = s.len();
    let mut i: usize = 0;
    while i < n
        invariant
            i <= n,
            n == s@.len(),
            forall|j: int| 0 <= j < i ==> s@[j] != c,
        decreases n - i,
    {
        if s[i] == c {
            proof {
                lemma_first_index_is(s@, c, i as int);
            }
            return i;
        }
        i = i + 1;
    }
    proof {
        lemma_first_index_is(s@, c, n as int);
    }
    n
}

/// Copies `s[a..b]` into a fresh vector.
fn subvec(s: &Vec<u8>, a: usize, b: usize) -> (r: Vec<u8>)
    requires
        a <= b <= s@.len(),
    ensures
        r@ == s@.subrange(a as int, b as int),
{
    vstd::slice::slice_to_vec(vstd::slice::slice_subrange(s.as_slice(), a, b))
}

/// Splits `key=value` at the first equals sign.
fn split_pair(s: &Vec<u8>) -> (r: Option<(Vec<u8>, Vec<u8>)>)
    ensures
        r is Some <==> spec_split_pair(s@) is Some,
        r matches Some(p) ==> spec_split_pair(s@) matches Some(q) && p.0@ == q.0 && p.1@ == q.1,
{
    let i = find_first(s, EQUALS);
    if i < s.len() {
        let k = subvec(s, 0, i);
        let v = subvec(s, i + 1, s.len());
        Some((k, v))
    } else {
        None
    }
}

/// Splits a comma-separated list of `key=value` pairs.
fn parse_fields(s: &Vec<u8>) -> (r: Option<Vec<(Vec<u8>, Vec<u8>)>>)
    ensures
        r is Some <==> spec_parse_fields(s@) is Some,
        r matches Some(v) ==> spec_parse_fields(s@) matches Some(fs) && spec_pairs_view(v@) == fs,
{
    let mut acc: Vec<(Vec<u8>, Vec<u8>)> = Vec::new();
    let mut rem: Vec<u8> = subvec(s, 0, s.len());
    proof {
        assert(rem@ =~= s@);
    }
    loop
        invariant
            spec_parse_fields(s@) is Some <==> spec_parse_fields(rem@) is Some,
            spec_parse_fields(rem@) matches Some(tail) ==> spec_parse_fields(s@) matches Some(fs)
                && fs == spec_pairs_view(acc@) + tail,
        decreases rem@.len(),
    {
        let i = find_first(&rem, COMMA);
        if i == rem.len() {
            match split_pair(&rem) {
                Some(p) => {
                    proof {
                        let q = spec_split_pair(rem@).unwrap();
                        assert(spec_parse_fields(rem@) == Some(seq![q]));
                        assert(spec_pairs_view(acc@.push((p.0, p.1))) =~= spec_pairs_view(acc@)
                            + seq![q]);
                    }
                    acc.push(p);
                    return Some(acc);
                },
                None => {
                    return None;
                },
            }
        } else {
            let piece = subvec(&rem, 0, i);
            let next = subvec(&rem, i + 1, rem.len());
            proof {
                assert(piece@ == rem@.take(i as int));
                assert(next@ == rem@.skip(i + 1));
            }
            match split_pair(&piece) {
                Some(p) => {
                    proof {
                        let q = spec_split_pair(piece@).unwrap();
                        if spec_parse_fields(next@) is Some {
                            let tail = spec_parse_fields(next@).unwrap();
                            assert(spec_parse_fields(rem@) == Some(seq![q] + tail));
                            assert(spec_pairs_view(acc@.push((p.0, p.1))) + tail =~= spec_pairs_view(
                                acc@,
                            ) + (seq![q] + tail));
                        }
                    }
                    acc.push(p);
                    rem = next;
                },
                None => {
                    return None;
                },
            }
        }
    }
}

/// Decodes one line back into its measurement, tag pair and field pairs.
pub fn parse_line(s: &Vec<u8>) -> (r: Option<ParsedPoint>)
    ensures
        r is Some <==> spec_parse_line(s@) is Some,
        r matches Some(p) ==> spec_parse_line(s@) == Some(p.view_point()),
{
    let sp = find_first(s, SPACE);
    if sp == s.len() {
        return None;
    }
    let header = subvec(s, 0, sp);
    let rest = subvec(s, sp + 1, s.len());
    proof {
        assert(header@ == s@.take(sp as int));
        assert(rest@ == s@.skip(sp + 1));
    }
    let ci = find_first(&header, COMMA);
    if ci == header.len() {
        return None;
    }
    let measurement = subvec(&header, 0, ci);
    let tag = subvec(&header, ci + 1, header.len());
    proof {
        assert(tag@ == header@.skip(ci + 1));
    }
    match split_pair(&tag) {
        Some(t) => {
            match parse_fields(&rest) {
                Some(fs) => {
                    let p = ParsedPoint { measurement, tag_key: t.0, tag_value: t.1, fields: fs };
                    proof {
                        assert(spec_parse_line(s@) == Some(p.view_point()));
                    }
                    Some(p)
                },
                None => None,
            }
        },
        None => None,
    }
}

/// A token that can stand as a measurement name, tag key or tag value:
/// nonempty, with none of the three separator bytes.
pub open spec fn spec_token(s: Seq<u8>) -> bool {
    s.len() > 0 && forall|i: int|
        0 <= i < s.len() ==> s[i] != COMMA && s[i] != SPACE && s[i] != EQUALS
}

/// A finite decimal numeral contains no separator byte, so it can stand
/// as a field value.
pub proof fn lemma_numeral_token(s: Seq<u8>)
    requires
        spec_is_numeral(s),
    ensures
        spec_token(s),
{
    if s.len() > 0 && s[0] == crate::model::MINUS {
        let t = s.skip(1);
        assert forall|i: int| 0 <= i < s.len() implies s[i] != COMMA && s[i] != SPACE && s[i]
            != EQUALS by {
            if i >= 1 {
                assert(t[i - 1] == s[i]);
                assert(crate::model::spec_is_digit(t[i - 1]) || t[i - 1] == crate::model::DOT);
            }
        }
    } else {
        assert(forall|i: int|
            0 <= i < s.len() ==> crate::model::spec_is_digit(s[i]) || s[i] == crate::model::DOT);
    }
}

proof fn lemma_keys_are_tokens()
    ensures
        spec_token(spec_key_temperature()),
        spec_token(spec_key_humidity()),
        spec_token(spec_key_pressure()),
        spec_token(spec_key_light()),
{
    assert(spec_token(spec_key_temperature()));
    assert(spec_token(spec_key_humidity()));
    assert(spec_token(spec_key_pressure()));
    assert(spec_token(spec_key_light()));
}

/// Splitting `key=value` at the first equals sign recovers the pair.
proof fn lemma_split_pair_of_pair(k: Seq<u8>, v: Seq<u8>)
    requires
        spec_token(k),
        spec_token(v),
    ensures
        spec_split_pair(spec_pair(k, v)) == Some((k, v)),
        forall|j: int|
            0 <= j < spec_pair(k, v).len() ==> spec_pair(k, v)[j] != COMMA && spec_pair(k, v)[j]
                != SPACE,
{
    let pp = spec_pair(k, v);
    assert forall|j: int| 0 <= j < pp.len() implies pp[j] != COMMA && pp[j] != SPACE by {
        if j < k.len() {
            assert(pp[j] == k[j]);
        } else if j == k.len() {
            assert(pp[j] == EQUALS);
        } else {
            assert(pp[j] == v[j - k.len() - 1]);
        }
    }
    assert forall|j: int| 0 <= j < k.len() implies pp[j] != EQUALS by {
        assert(pp[j] == k[j]);
    }
    assert(pp[k.len() as int] == EQUALS);
    lemma_first_index_is(pp, EQUALS, k.len() as int);
    assert(pp.take(k.len() as int) =~= k);
    assert(pp.skip(k.len() + 1 as int) =~= v);
}

/// A single trailing `key=value` parses to the one pair.
proof fn lemma_parse_fields_last(k: Seq<u8>, v: Seq<u8>)
    requires
        spec_token(k),
        spec_token(v),
    ensures
        spec_parse_fields(spec_pair(k, v)) == Some(seq![(k, v)]),
{
    let pp = spec_pair(k, v);
    lemma_split_pair_of_pair(k, v);
    lemma_first_index_is(pp, COMMA, pp.len() as int);
}

/// One leading `key=value,` peels off the rest of the field list.
proof fn lemma_parse_fields_cons(k: Seq<u8>, v: Seq<u8>, rest: Seq<u8>, fs: Seq<(Seq<u8>, Seq<u8>)>)
    requires
        spec_token(k),
        spec_token(v),
        spec_parse_fields(rest) == Some(fs),
    ensures
        spec_parse_fields(spec_pair(k, v) + seq![COMMA] + rest) == Some(seq![(k, v)] + fs),
{
    let pp = spec_pair(k, v);
    let s = pp + seq![COMMA] + rest;
    lemma_split_pair_of_pair(k, v);
    assert forall|j: int| 0 <= j < pp.len() implies s[j] != COMMA by {
        assert(s[j] == pp[j]);
    }
    assert(s[pp.len() as int] == COMMA);
    lemma_first_index_is(s, COMMA, pp.len() as int);
    assert(s.take(pp.len() as int) =~= pp);
    assert(s.skip(pp.len() + 1 as int) =~= rest);
}

/// The round trip of the line format: encoding a well-formed `Reading`
/// under delimiter-free measurement and tag tokens and decoding the
/// result gives back the measurement, the tag pair, and exactly the four
/// field pairs, keyed `temperature`, `humidity`, `pressure`, `light`, in
/// that order, with the numeric values byte for byte as they went in.
pub proof fn lemma_line_round_trip(m: Seq<u8>, tk: Seq<u8>, tv: Seq<u8>, r: Reading)
    requires
        spec_token(m),
        spec_token(tk),
        spec_token(tv),
        r.wf(),
    ensures
        spec_parse_line(spec_encode_line(m, tk, tv, r)) == Some(
            SpecPoint {
                measurement: m,
                tag_key: tk,
                tag_value: tv,
                fields: seq![
                    (spec_key_temperature(), r.temperature@),
                    (spec_key_humidity(), r.humidity@),
                    (spec_key_pressure(), r.pressure@),
                    (spec_key_light(), r.light@),
                ],
            },
        ),
{
    lemma_keys_are_tokens();
    lemma_numeral_token(r.temperature@);
    lemma_numeral_token(r.humidity@);
    lemma_numeral_token(r.pressure@);
    lemma_numeral_token(r.light@);
    let line = spec_encode_line(m, tk, tv, r);
    let tag = spec_pair(tk, tv);
    let header = m + seq![COMMA] + tag;
    let f4 = spec_pair(spec_key_light(), r.light@);
    let f3 = spec_pair(spec_key_pressure(), r.pressure@) + seq![COMMA] + f4;
    let f2 = spec_pair(spec_key_humidity(), r.humidity@) + seq![COMMA] + f3;
    let f1 = spec_pair(spec_key_temperature(), r.temperature@) + seq![COMMA] + f2;
    assert(line =~= header + seq![SPACE] + f1);

    // the fields section parses to the four pairs
    lemma_parse_fields_last(spec_key_light(), r.light@);
    lemma_parse_fields_cons(spec_key_pressure(), r.pressure@, f4, seq![(spec_key_light(), r.light@)]);
    lemma_parse_fields_cons(
        spec_key_humidity(),
        r.humidity@,
        f3,
        seq![(spec_key_pressure(), r.pressure@)] + seq![(spec_key_light(), r.light@)],
    );
    lemma_parse_fields_cons(
        spec_key_temperature(),
        r.temperature@,
        f2,
        seq![(spec_key_humidity(), r.humidity@)] + (seq![(spec_key_pressure(), r.pressure@)]
            + seq![(spec_key_light(), r.light@)]),
    );

    // the first space ends the header
    lemma_split_pair_of_pair(tk, tv);
    assert forall|j: int| 0 <= j < header.len() implies line[j] == header[j] && header[j]
        != SPACE by {
        if j < m.len() {
            assert(header[j] == m[j]);
        } else if j == m.len() {
            assert(header[j] == COMMA);
        } else {
            assert(header[j] == tag[j - m.len() - 1]);
        }
    }
    assert(line[header.len() as int] == SPACE);
    lemma_first_index_is(line, SPACE, header.len() as int);
    assert(line.take(header.len() as int) =~= header);
    assert(line.skip(header.len() + 1 as int) =~= f1);

    // the first comma ends the measurement
    assert forall|j: int| 0 <= j < m.len() implies header[j] != COMMA by {
        assert(header[j] == m[j]);
    }
    assert(header[m.len() as int] == COMMA);
    lemma_first_index_is(header, COMMA, m.len() as int);
    assert(header.take(m.len() as int) =~= m);
    assert(header.skip(m.len() + 1 as int) =~= tag);

    assert(seq![(spec_key_temperature(), r.temperature@)] + (seq![(spec_key_humidity(), r.humidity@)]
        + (seq![(spec_key_pressure(), r.pressure@)] + seq![(spec_key_light(), r.light@)])) =~= seq![
        (spec_key_temperature(), r.temperature@),
        (spec_key_humidity(), r.humidity@),
        (spec_key_pressure(), r.pressure@),
        (spec_key_light(), r.light@),
    ]);
    assert(spec_parse_line(line) matches Some(p) && p =~= SpecPoint {
        measurement: m,
        tag_key: tk,
        tag_value: tv,
        fields: seq![
            (spec_key_temperature(), r.temperature@),
            (spec_key_humidity(), r.humidity@),
            (spec_key_pressure(), r.pressure@),
            (spec_key_light(), r.light@),
        ],
    });
}

} // verus!
