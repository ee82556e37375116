//! Model geometry: the text mesh format parser and the derivation of the
//! flat triangle list that face picking consumes.
//!
//! The format is line-oriented: `v`/`vertex` lines declare a vertex with
//! nine numeric fields (position, normal, color), `f`/`face`/`tri`/
//! `triangle` lines declare a triangle by three 0-based vertex indices,
//! and every other line (comments included) is ignored. Numbers are plain
//! decimals — an optional sign, up to six integer digits, an optional
//! point and fraction (the first nine fraction digits carry value), with
//! magnitude below 1024 spatial units; exponent and infinity forms are
//! not part of the grammar. Indices are plain unsigned decimals of up to
//! ten digits, at most 65535. Fields are separated by ASCII whitespace.

use vstd::prelude::*;
use crate::fx::{abs_s, FX_ONE};
use crate::math::{vec3_bounded, Vec3};
use vstd::slice::{slice_subrange, slice_to_vec};
use vstd::string::StringSliceAdditionalSpecFns;

verus! {

/// Magnitude limit on model coordinates (2^42, that is 1024 spatial units):
/// the parser rejects larger numbers so that picking arithmetic stays in
/// range under any clamped interactive transform.
pub const MODEL_COORD_LIMIT: i64 = 0x40000000000;

/// A vertex record: position, normal, color, and the id of the face the
/// record was expanded for.
#[derive(Clone, Copy, PartialEq, Eq, Structural, Debug)]
pub struct Vertex {
    pub position: Vec3,
    pub normal: Vec3,
    pub color: Vec3,
    pub face_id: usize,
}

/// One triangle of the loaded model: three positions in the winding order
/// of the source index stream. Its face id is its position in the model's
/// triangle list.
#[derive(Clone, Copy, PartialEq, Eq, Structural, Debug)]
pub struct Triangle {
    pub v0: Vec3,
    pub v1: Vec3,
    pub v2: Vec3,
}

impl Triangle {
    /// All nine coordinates within the model coordinate limit.
    pub open spec fn bounded(self) -> bool {
        vec3_bounded(self.v0, MODEL_COORD_LIMIT as int) && vec3_bounded(
            self.v1,
            MODEL_COORD_LIMIT as int,
        ) && vec3_bounded(self.v2, MODEL_COORD_LIMIT as int)
    }
}

/// The triangles that an index stream yields: one per consecutive index
/// triple, in face order, holding the three referenced positions.
pub open spec fn extract_s(vertices: Seq<Vertex>, indices: Seq<usize>) -> Seq<Triangle> {
    Seq::new(
        (indices.len() / 3) as nat,
        |k: int|
            Triangle {
                v0: vertices[indices[3 * k] as int].position,
                v1: vertices[indices[3 * k + 1] as int].position,
                v2: vertices[indices[3 * k + 2] as int].position,
            },
    )
}

/// Group the index stream into consecutive triples and emit one triangle
/// of raw positions per triple, in face order; a trailing partial group is
/// ignored.
pub fn extract_triangles(vertices: &Vec<Vertex>, indices: &Vec<usize>) -> (r: Vec<Triangle>)
    requires
        forall|i: int| 0 <= i < indices@.len() ==> #[trigger] indices@[i] < vertices@.len(),
    ensures
        r@ == extract_s(vertices@, indices@),
        r@.len() == indices@.len() / 3,
        forall|k: int|
            0 <= k < r@.len() ==> #[trigger] r@[k] == (Triangle {
                v0: vertices@[indices@[3 * k] as int].position,
                v1: vertices@[indices@[3 * k + 1] as int].position,
                v2: vertices@[indices@[3 * k + 2] as int].position,
            }),
{
    let mut triangles: Vec<Triangle> = Vec::new();
    let n: usize = indices.len() / 3;
    let mut k: usize = 0;
    while k < n
        invariant
            indices@.len() <= usize::MAX,
            n == indices@.len() / 3,
            0 <= k <= n,
            forall|i: int| 0 <= i < indices@.len() ==> #[trigger] indices@[i] < vertices@.len(),
            triangles@.len() == k,
            forall|j: int|
                0 <= j < k ==> #[trigger] triangles@[j] == (Triangle {
                    v0: vertices@[indices@[3 * j] as int].position,
                    v1: vertices@[indices@[3 * j + 1] as int].position,
                    v2: vertices@[indices@[3 * j + 2] as int].position,
                }),
        decreases n - k,
    {
        proof {
            assert(3 * (k as int) + 2 < indices@.len()) by (nonlinear_arith)
                requires
                    k < n,
                    n == indices@.len() / 3,
            ;
        }
        let i0: usize = indices[3 * k];
        let i1: usize = indices[3 * k + 1];
        let i2: usize = indices[3 * k + 2];
        let t = Triangle {
            v0: vertices[i0].position,
            v1: vertices[i1].position,
            v2: vertices[i2].position,
        };
        triangles.push(t);
        k = k + 1;
    }
    proof {
        assert(triangles@ =~= extract_s(vertices@, indices@));
    }
    triangles
}


/// An ASCII whitespace byte, as the tokenizer sees it.
pub open spec fn is_space(b: u8) -> bool {
    b == 9 || b == 10 || b == 11 || b == 12 || b == 13 || b == 32
}

/// An ASCII decimal digit.
pub open spec fn is_digit(b: u8) -> bool {
    48 <= b <= 57
}

/// The index of the first line-feed byte, or the length when there is none.
pub open spec fn line_break(s: Seq<u8>) -> int
    decreases s.len(),
{
    if s.len() == 0 {
        0
    } else if s[0] == 10 {
        0
    } else {
        1 + line_break(s.drop_first())
    }
}

/// A position with no earlier line feed, holding one itself or at the end,
/// is `line_break`.
pub proof fn lemma_line_break_at(s: Seq<u8>, k: int)
    requires
        0 <= k <= s.len(),
        forall|j: int| 0 <= j < k ==> s[j] != 10,
        k < s.len() ==> s[k] == 10,
    ensures
        line_break(s) == k,
    decreases s.len(),
{
    if s.len() > 0 && s[0] != 10 {
        lemma_line_break_at(s.drop_first(), k - 1);
    }
}

/// The text split at line feeds. The piece after the last line feed is
/// always a line, so a trailing line feed yields a final empty line, which
/// the parser skips anyway.
pub open spec fn split_lines_s(s: Seq<u8>) -> Seq<Seq<u8>>
    decreases s.len(),
{
    let k = line_break(s);
    if k >= s.len() {
        seq![s]
    } else if 0 <= k < s.len() {
        seq![s.subrange(0, k)] + split_lines_s(s.subrange(k + 1, s.len() as int))
    } else {
        seq![s]
    }
}

/// Split a byte text at line feeds, exactly as `split_lines_s` says.
pub fn split_lines(b: &[u8]) -> (r: Vec<Vec<u8>>)
    ensures
        r@.map_values(|v: Vec<u8>| v@) == split_lines_s(b@),
{
    let n: usize = b.len();
    let mut r: Vec<Vec<u8>> = Vec::new();
    let mut start: usize = 0;
    let mut i: usize = 0;
    proof {
        assert(b@.subrange(0, n as int) =~= b@);
        assert(r@.map_values(|v: Vec<u8>| v@) + split_lines_s(b@) =~= split_lines_s(b@));
    }
    while i < n
        invariant
            n == b@.len(),
            0 <= start <= i <= n,
            forall|j: int| start <= j < i ==> b@[j] != 10,
            split_lines_s(b@) == r@.map_values(|v: Vec<u8>| v@) + split_lines_s(
                b@.subrange(start as int, n as int),
            ),
        decreases n - i,
    {
        if *vstd::slice::slice_index_get(b, i) == 10 {
            let line: Vec<u8> = slice_to_vec(slice_subrange(b, start, i));
            proof {
                let suf = b@.subrange(start as int, n as int);
                lemma_line_break_at(suf, i - start);
                assert(suf.subrange(0, i - start) =~= b@.subrange(start as int, i as int));
                assert(suf.subrange(i - start + 1, suf.len() as int) =~= b@.subrange(
                    i as int + 1,
                    n as int,
                ));
                assert(r@.map_values(|v: Vec<u8>| v@).push(line@) =~= r@.map_values(
                    |v: Vec<u8>| v@,
                ) + seq![line@]);
                assert((r@.push(line)).map_values(|v: Vec<u8>| v@) =~= r@.map_values(
                    |v: Vec<u8>| v@,
                ).push(line@));
            }
            r.push(line);
            start = i + 1;
        }
        i = i + 1;
    }
    let last: Vec<u8> = slice_to_vec(slice_subrange(b, start, n));
    proof {
        let suf = b@.subrange(start as int, n as int);
        lemma_line_break_at(suf, n - start);
        assert(last@ =~= suf);
        assert((r@.push(last)).map_values(|v: Vec<u8>| v@) =~= r@.map_values(
            |v: Vec<u8>| v@,
        ).push(last@));
        assert(r@.map_values(|v: Vec<u8>| v@) + seq![suf] =~= r@.map_values(
            |v: Vec<u8>| v@,
        ).push(suf));
    }
    r.push(last);
    r
}



/// The number of leading non-whitespace bytes: the length of the token
/// starting at position 0.
pub open spec fn token_break(s: Seq<u8>) -> nat
    decreases s.len(),
{
    if s.len() == 0 {
        0
    } else if is_space(s[0]) {
        0
    } else {
        1 + token_break(s.drop_first())
    }
}

/// A position with no earlier whitespace, holding whitespace itself or at
/// the end, is `token_break`.
pub proof fn lemma_token_break_at(s: Seq<u8>, k: int)
    requires
        0 <= k <= s.len(),
        forall|j: int| 0 <= j < k ==> !is_space(s[j]),
        k < s.len() ==> is_space(s[k]),
    ensures
        token_break(s) == k,
    decreases s.len(),
{
    if s.len() > 0 && !is_space(s[0]) {
        lemma_token_break_at(s.drop_first(), k - 1);
    }
}

/// The whitespace-delimited tokens of a line, in order.
pub open spec fn tokens_s(s: Seq<u8>) -> Seq<Seq<u8>>
    decreases s.len(),
{
    if s.len() == 0 {
        Seq::empty()
    } else if is_space(s[0]) {
        tokens_s(s.drop_first())
    } else {
        let k = token_break(s) as int;
        if k >= s.len() {
            seq![s]
        } else {
            seq![s.subrange(0, k)] + tokens_s(s.subrange(k, s.len() as int))
        }
    }
}

fn is_space_byte(b: u8) -> (r: bool)
    ensures
        r == is_space(b),
{
    b == 9 || b == 10 || b == 11 || b == 12 || b == 13 || b == 32
}

/// Split a line into whitespace-delimited tokens, exactly as `tokens_s`
/// says.
pub fn tokenize(line: &[u8]) -> (r: Vec<Vec<u8>>)
    ensures
        r@.map_values(|v: Vec<u8>| v@) == tokens_s(line@),
{
    let n: usize = line.len();
    let mut r: Vec<Vec<u8>> = Vec::new();
    let mut i: usize = 0;
    proof {
        assert(line@.subrange(0, n as int) =~= line@);
        assert(r@.map_values(|v: Vec<u8>| v@) + tokens_s(line@) =~= tokens_s(line@));
    }
    while i < n
        invariant
            n == line@.len(),
            0 <= i <= n,
            tokens_s(line@) == r@.map_values(|v: Vec<u8>| v@) + tokens_s(
                line@.subrange(i as int, n as int),
            ),
        decreases n - i,
    {
        if is_space_byte(*vstd::slice::slice_index_get(line, i)) {
            proof {
                let suf = line@.subrange(i as int, n as int);
                assert(suf.drop_first() =~= line@.subrange(i as int + 1, n as int));
            }
            i = i + 1;
        } else {
            let ghost i0 = i as int;
            let mut j: usize = i + 1;
            while j < n && !is_space_byte(*vstd::slice::slice_index_get(line, j))
                invariant
                    n == line@.len(),
                    i0 + 1 <= j <= n,
                    0 <= i0 < n,
                    forall|p: int| i0 <= p < j ==> !is_space(line@[p]),
                decreases n - j,
            {
                j = j + 1;
            }
            proof {
                let suf = line@.subrange(i0, n as int);
                lemma_token_break_at(suf, j - i0);
                assert(suf.subrange(0, j - i0) =~= line@.subrange(i0, j as int));
            }
            let tok: Vec<u8> = slice_to_vec(slice_subrange(line, i, j));
            proof {
                let suf = line@.subrange(i0, n as int);
                if j < n {
                    assert(suf.subrange(j - i0, suf.len() as int) =~= line@.subrange(
                        j as int,
                        n as int,
                    ));
                } else {
                    assert(tokens_s(line@.subrange(j as int, n as int)) =~= Seq::<
                        Seq<u8>,
                    >::empty());
                    assert(seq![suf] =~= seq![tok@] + Seq::<Seq<u8>>::empty());
                }
                assert((r@.push(tok)).map_values(|v: Vec<u8>| v@) =~= r@.map_values(
                    |v: Vec<u8>| v@,
                ).push(tok@));
                assert(r@.map_values(|v: Vec<u8>| v@) + (seq![tok@] + tokens_s(
                    line@.subrange(j as int, n as int),
                )) =~= r@.map_values(|v: Vec<u8>| v@).push(tok@) + tokens_s(
                    line@.subrange(j as int, n as int),
                ));
            }
            r.push(tok);
            i = j;
        }
    }
    proof {
        assert(tokens_s(line@.subrange(n as int, n as int)) =~= Seq::<Seq<u8>>::empty());
        assert(r@.map_values(|v: Vec<u8>| v@) + Seq::<Seq<u8>>::empty() =~= r@.map_values(
            |v: Vec<u8>| v@,
        ));
    }
    r
}



/// The number of leading decimal-digit bytes.
pub open spec fn digit_run(s: Seq<u8>) -> nat
    decreases s.len(),
{
    if s.len() == 0 {
        0
    } else if !is_digit(s[0]) {
        0
    } else {
        1 + digit_run(s.drop_first())
    }
}

/// A position with only digits before it and a non-digit at it (or the
/// end) is `digit_run`.
pub proof fn lemma_digit_run_at(s: Seq<u8>, k: int)
    requires
        0 <= k <= s.len(),
        forall|j: int| 0 <= j < k ==> is_digit(s[j]),
        k < s.len() ==> !is_digit(s[k]),
    ensures
        digit_run(s) == k,
    decreases s.len(),
{
    if s.len() > 0 && is_digit(s[0]) {
        lemma_digit_run_at(s.drop_first(), k - 1);
    }
}

/// The value of a string of decimal digits, most significant first.
pub open spec fn digits_value(s: Seq<u8>) -> int
    decreases s.len(),
{
    if s.len() == 0 {
        0
    } else {
        digits_value(s.drop_last()) * 10 + (s[s.len() - 1] - 48)
    }
}

/// Ten to the `k`.
pub open spec fn pow10(k: nat) -> int
    decreases k,
{
    if k == 0 {
        1
    } else {
        10 * pow10((k - 1) as nat)
    }
}

/// A digit string's value is nonnegative and below ten to its length.
pub proof fn lemma_digits_value_bound(s: Seq<u8>)
    requires
        forall|j: int| 0 <= j < s.len() ==> is_digit(s[j]),
    ensures
        0 <= digits_value(s) < pow10(s.len()),
    decreases s.len(),
{
    if s.len() > 0 {
        assert(forall|j: int| 0 <= j < s.drop_last().len() ==> is_digit(s.drop_last()[j]));
        lemma_digits_value_bound(s.drop_last());
    }
}

/// `pow10` does not decrease.
pub proof fn lemma_pow10_increases(a: nat, b: nat)
    requires
        a <= b,
    ensures
        pow10(a) <= pow10(b),
        pow10(a) >= 1,
    decreases b,
{
    if b > 0 {
        if a < b {
            lemma_pow10_increases(a, (b - 1) as nat);
        } else {
            lemma_pow10_increases((a - 1) as nat, (b - 1) as nat);
        }
    }
}

fn is_digit_byte(b: u8) -> (r: bool)
    ensures
        r == is_digit(b),
{
    48 <= b && b <= 57
}

/// The value of the digits `s[from..to]`, at most nine of them.
fn parse_digits(s: &[u8], from: usize, to: usize) -> (v: u64)
    requires
        from <= to <= s@.len(),
        to - from <= 9,
        forall|p: int| from <= p < to ==> is_digit(s@[p]),
    ensures
        v as int == digits_value(s@.subrange(from as int, to as int)),
        v < 1000000000,
{
    let mut v: u64 = 0;
    let mut i: usize = from;
    proof {
        assert(s@.subrange(from as int, from as int) =~= Seq::<u8>::empty());
    }
    while i < to
        invariant
            from <= i <= to <= s@.len(),
            to - from <= 9,
            forall|p: int| from <= p < to ==> is_digit(s@[p]),
            v as int == digits_value(s@.subrange(from as int, i as int)),
            (v as int) < pow10((i - from) as nat),
        decreases to - i,
    {
        let d: u8 = *vstd::slice::slice_index_get(s, i);
        proof {
            reveal_with_fuel(pow10, 10);
            lemma_pow10_increases((i - from) as nat, 8);
            assert(is_digit(s@[i as int]));
            let pre = s@.subrange(from as int, i as int);
            let cur = s@.subrange(from as int, i as int + 1);
            assert(cur.drop_last() =~= pre);
            assert(cur[cur.len() - 1] == s@[i as int]);
        }
        v = v * 10 + ((d - 48) as u64);
        i = i + 1;
    }
    proof {
        reveal_with_fuel(pow10, 10);
        lemma_pow10_increases((i - from) as nat, 9);
    }
    v
}

fn pow10_exec(k: usize) -> (r: u64)
    requires
        k <= 9,
    ensures
        r as int == pow10(k as nat),
        1 <= r <= 1000000000,
{
    let mut r: u64 = 1;
    let mut i: usize = 0;
    proof {
        reveal_with_fuel(pow10, 10);
    }
    while i < k
        invariant
            0 <= i <= k <= 9,
            r as int == pow10(i as nat),
            1 <= r <= 1000000000,
        decreases k - i,
    {
        proof {
            reveal_with_fuel(pow10, 10);
            lemma_pow10_increases((i + 1) as nat, 9);
        }
        r = r * 10;
        i = i + 1;
    }
    r
}



/// The fixed-point value of a decimal token: an optional sign, up to six
/// integer digits, and optionally a point with fraction digits (of which
/// the first nine carry value). The magnitude must stay below 1024
/// spatial units; anything else (empty, stray bytes, too many integer
/// digits, out of range) is `None`.
pub open spec fn parse_scalar_s(tok: Seq<u8>) -> Option<int> {
    let neg = tok.len() > 0 && tok[0] == 45;
    let rest = if tok.len() > 0 && (tok[0] == 45 || tok[0] == 43) {
        tok.drop_first()
    } else {
        tok
    };
    let k = digit_run(rest) as int;
    if rest.len() == 0 {
        None
    } else if k == rest.len() {
        if k > 6 || digits_value(rest) > 1023 {
            None
        } else {
            let v = digits_value(rest) * (FX_ONE as int);
            Some(
                if neg {
                    -v
                } else {
                    v
                },
            )
        }
    } else if rest[k] == 46 {
        let intd = rest.subrange(0, k);
        let frac = rest.subrange(k + 1, rest.len() as int);
        if k > 6 || (k == 0 && frac.len() == 0) || digit_run(frac) != frac.len() {
            None
        } else if digits_value(intd) > 1023 {
            None
        } else {
            let used = if frac.len() > 9 {
                9 as nat
            } else {
                frac.len()
            };
            let fv = digits_value(frac.subrange(0, used as int)) * (FX_ONE as int) / pow10(used);
            let v = digits_value(intd) * (FX_ONE as int) + fv;
            Some(
                if neg {
                    -v
                } else {
                    v
                },
            )
        }
    } else {
        None
    }
}

/// A vertex index token: an optional plus sign and one to ten digits with
/// a value of at most 65535; anything else is `None`.
pub open spec fn parse_index_s(tok: Seq<u8>) -> Option<int> {
    let rest = if tok.len() > 0 && tok[0] == 43 {
        tok.drop_first()
    } else {
        tok
    };
    if rest.len() == 0 || rest.len() > 10 || digit_run(rest) != rest.len() {
        None
    } else if digits_value(rest) > 65535 {
        None
    } else {
        Some(digits_value(rest))
    }
}

/// Parse a decimal token to a fixed-point scalar, exactly as
/// `parse_scalar_s` says; a parsed value is within the model coordinate
/// limit.
#[verifier::rlimit(60)]
pub fn parse_scalar(tok: &[u8]) -> (r: Option<i64>)
    ensures
        r is Some <==> parse_scalar_s(tok@) is Some,
        r is Some ==> parse_scalar_s(tok@) == Some(r->0 as int),
        r is Some ==> abs_s(r->0 as int) < MODEL_COORD_LIMIT as int,
{
    let n: usize = tok.len();
    let mut p: usize = 0;
    let mut neg: bool = false;
    if n > 0 && *vstd::slice::slice_index_get(tok, 0) == 45 {
        neg = true;
        p = 1;
    } else if n > 0 && *vstd::slice::slice_index_get(tok, 0) == 43 {
        p = 1;
    }
    let ghost rest = tok@.subrange(p as int, n as int);
    proof {
        if p == 0 {
            assert(rest =~= tok@);
        }
    }
    if p >= n {
        return None;
    }
    let mut k: usize = p;
    while k < n && is_digit_byte(*vstd::slice::slice_index_get(tok, k))
        invariant
            p <= k <= n,
            n == tok@.len(),
            forall|j: int| p <= j < k ==> is_digit(tok@[j]),
        decreases n - k,
    {
        k = k + 1;
    }
    proof {
        lemma_digit_run_at(rest, k - p);
        assert(rest.len() == n - p);
    }
    if k == n {
        if k == p || k - p > 6 {
            return None;
        }
        let iv: u64 = parse_digits(tok, p, k);
        proof {
            assert(tok@.subrange(p as int, k as int) =~= rest);
        }
        if iv > 1023 {
            return None;
        }
        let v: i64 = (iv as i64) * FX_ONE;
        if neg {
            Some(-v)
        } else {
            Some(v)
        }
    } else if *vstd::slice::slice_index_get(tok, k) == 46 {
        proof {
            assert(rest[k - p] == 46);
        }
        if k - p > 6 || (k == p && k + 1 == n) {
            return None;
        }
        let ghost frac = rest.subrange(k - p + 1, rest.len() as int);
        let mut j: usize = k + 1;
        while j < n && is_digit_byte(*vstd::slice::slice_index_get(tok, j))
            invariant
                k + 1 <= j <= n,
                n == tok@.len(),
                forall|q: int| k + 1 <= q < j ==> is_digit(tok@[q]),
            decreases n - j,
        {
            j = j + 1;
        }
        proof {
            assert(frac =~= tok@.subrange(k as int + 1, n as int));
            if j < n {
                lemma_digit_run_at(frac, j - (k + 1));
            } else {
                lemma_digit_run_at(frac, n - (k + 1));
            }
        }
        if j < n {
            return None;
        }
        let fl: usize = n - (k + 1);
        let used: usize = if fl > 9 {
            9
        } else {
            fl
        };
        let fv: u64 = parse_digits(tok, k + 1, k + 1 + used);
        proof {
            assert(tok@.subrange(k as int + 1, (k + 1 + used) as int) =~= frac.subrange(
                0,
                used as int,
            ));
        }
        let pw: u64 = pow10_exec(used);
        let fracfx: u64 = (fv * (FX_ONE as u64)) / pw;
        proof {
            assert(fv * (FX_ONE as u64) <= 1000000000u64 * 4294967296u64) by (nonlinear_arith)
                requires
                    fv <= 1000000000u64,
            ;
            vstd::arithmetic::div_mod::lemma_div_pos_is_pos((fv * (FX_ONE as u64)) as int, pw as int);
            lemma_digits_value_bound(frac.subrange(0, used as int));
            lemma_pow10_increases(used as nat, 9);
            assert((fv as int) * (FX_ONE as int) < pow10(used as nat) * (FX_ONE as int))
                by (nonlinear_arith)
                requires
                    (fv as int) < pow10(used as nat),
                    FX_ONE > 0,
            ;
            vstd::arithmetic::div_mod::lemma_multiply_divide_lt(
                (fv as int) * (FX_ONE as int),
                pow10(used as nat),
                FX_ONE as int,
            );
        }
        let iv: u64 = if k > p {
            let t: u64 = parse_digits(tok, p, k);
            t
        } else {
            0u64
        };
        proof {
            assert(tok@.subrange(p as int, k as int) =~= rest.subrange(0, k - p));
            if k == p {
                assert(rest.subrange(0, 0) =~= Seq::<u8>::empty());
            }
        }
        if iv > 1023 {
            return None;
        }
        let v: i64 = (iv as i64) * FX_ONE + (fracfx as i64);
        if neg {
            Some(-v)
        } else {
            Some(v)
        }
    } else {
        None
    }
}

/// Parse a vertex index token, exactly as `parse_index_s` says.
pub fn parse_index(tok: &[u8]) -> (r: Option<usize>)
    ensures
        r is Some <==> parse_index_s(tok@) is Some,
        r is Some ==> parse_index_s(tok@) == Some(r->0 as int),
        r is Some ==> r->0 <= 65535,
{
    let n: usize = tok.len();
    let mut p: usize = 0;
    if n > 0 && *vstd::slice::slice_index_get(tok, 0) == 43 {
        p = 1;
    }
    let ghost rest = tok@.subrange(p as int, n as int);
    proof {
        if p == 0 {
            assert(rest =~= tok@);
        }
    }
    if p >= n || n - p > 10 {
        return None;
    }
    let mut k: usize = p;
    while k < n && is_digit_byte(*vstd::slice::slice_index_get(tok, k))
        invariant
            p <= k <= n,
            n == tok@.len(),
            forall|j: int| p <= j < k ==> is_digit(tok@[j]),
        decreases n - k,
    {
        k = k + 1;
    }
    proof {
        lemma_digit_run_at(rest, k - p);
    }
    if k < n {
        return None;
    }
    let half: usize = p + (n - p) / 2;
    let hi: u64 = parse_digits(tok, p, half);
    let lo: u64 = parse_digits(tok, half, n);
    let ghost hs = tok@.subrange(p as int, half as int);
    let ghost ls = tok@.subrange(half as int, n as int);
    proof {
        lemma_digits_split(rest, half - p);
        assert(rest.subrange(0, half - p) =~= hs);
        assert(rest.subrange(half - p, rest.len() as int) =~= ls);
        lemma_digits_value_bound(hs);
        lemma_digits_value_bound(ls);
        lemma_pow10_increases((n - half) as nat, 5);
        lemma_pow10_increases((half - p) as nat, 5);
        reveal_with_fuel(pow10, 10);
        assert((digits_value(hs)) * pow10((n - half) as nat) <= 99999 * 100000)
            by (nonlinear_arith)
            requires
                0 <= digits_value(hs) <= 99999,
                0 <= pow10((n - half) as nat) <= 100000,
        ;
    }
    let pw: u64 = pow10_exec(n - half);
    let v: u64 = hi * pw + lo;
    if v > 65535 {
        return None;
    }
    Some(v as usize)
}

/// Splitting a digit string splits its value by a power of ten.
pub proof fn lemma_digits_split(s: Seq<u8>, k: int)
    requires
        0 <= k <= s.len(),
    ensures
        digits_value(s) == digits_value(s.subrange(0, k)) * pow10((s.len() - k) as nat)
            + digits_value(s.subrange(k, s.len() as int)),
    decreases s.len() - k,
{
    if k == s.len() {
        assert(s.subrange(0, k) =~= s);
        assert(s.subrange(k, s.len() as int) =~= Seq::<u8>::empty());
    } else {
        lemma_digits_split(s.drop_last(), k);
        assert(s.drop_last().subrange(0, k) =~= s.subrange(0, k));
        assert(s.drop_last().subrange(k, s.drop_last().len() as int) =~= s.subrange(
            k,
            s.len() - 1,
        ));
        assert(s.subrange(k, s.len() as int).drop_last() =~= s.subrange(k, s.len() - 1));
        let a = digits_value(s.subrange(0, k));
        let b = pow10((s.len() - k - 1) as nat);
        let c = digits_value(s.subrange(k, s.len() - 1));
        let d = s[s.len() - 1] - 48;
        assert((a * b + c) * 10 + d == a * (10 * b) + (c * 10 + d)) by (nonlinear_arith);
    }
}



/// Most faces a model may declare (2^28 - 1): keeps the expanded vertex
/// count within every platform's address range.
pub const MAX_FACES: usize = 0x0fffffff;

/// Why a model text was rejected. Line and face numbers are 1-based and
/// 0-based respectively.
#[derive(Clone, Copy, PartialEq, Eq, Structural, Debug)]
pub enum ParseError {
    /// A vertex line with fewer than nine fields; carries the line number.
    InvalidVertexLine { line: usize },
    /// A face line with fewer than three fields; carries the line number.
    InvalidFaceLine { line: usize },
    /// A field that is not a number in range; carries the line number.
    InvalidNumber { line: usize },
    /// A face referencing a vertex that the model never declares; carries
    /// the face id.
    IndexOutOfRange { face: usize },
    /// The text declares no vertex.
    NoVertices,
    /// The text declares no face.
    NoFaces,
    /// The text declares more faces than `MAX_FACES`.
    TooManyFaces,
}

/// The token introducing a vertex line.
pub open spec fn is_kw_vertex_s(t: Seq<u8>) -> bool {
    t == seq![118u8] || t == seq![118u8, 101u8, 114u8, 116u8, 101u8, 120u8]
}

/// The token introducing a face line.
pub open spec fn is_kw_face_s(t: Seq<u8>) -> bool {
    t == seq![102u8] || t == seq![102u8, 97u8, 99u8, 101u8] || t == seq![116u8, 114u8, 105u8] || t
        == seq![116u8, 114u8, 105u8, 97u8, 110u8, 103u8, 108u8, 101u8]
}

fn is_kw_vertex(t: &Vec<u8>) -> (r: bool)
    ensures
        r == is_kw_vertex_s(t@),
{
    let r: bool = (t.len() == 1 && t[0] == 118) || (t.len() == 6 && t[0] == 118 && t[1] == 101
        && t[2] == 114 && t[3] == 116 && t[4] == 101 && t[5] == 120);
    proof {
        if r {
            if t@.len() == 1 {
                assert(t@ =~= seq![118u8]);
            } else {
                assert(t@ =~= seq![118u8, 101u8, 114u8, 116u8, 101u8, 120u8]);
            }
        }
    }
    r
}

fn is_kw_face(t: &Vec<u8>) -> (r: bool)
    ensures
        r == is_kw_face_s(t@),
{
    let r: bool = (t.len() == 1 && t[0] == 102) || (t.len() == 4 && t[0] == 102 && t[1] == 97
        && t[2] == 99 && t[3] == 101) || (t.len() == 3 && t[0] == 116 && t[1] == 114 && t[2]
        == 105) || (t.len() == 8 && t[0] == 116 && t[1] == 114 && t[2] == 105 && t[3] == 97
        && t[4] == 110 && t[5] == 103 && t[6] == 108 && t[7] == 101);
    proof {
        if r {
            if t@.len() == 1 {
                assert(t@ =~= seq![102u8]);
            } else if t@.len() == 4 {
                assert(t@ =~= seq![102u8, 97u8, 99u8, 101u8]);
            } else if t@.len() == 3 {
                assert(t@ =~= seq![116u8, 114u8, 105u8]);
            } else {
                assert(t@ =~= seq![116u8, 114u8, 105u8, 97u8, 110u8, 103u8, 108u8, 101u8]);
            }
        }
    }
    r
}

/// What one line contributes: a vertex line must carry nine in-range
/// numbers, a face line three vertex indices; a line whose first token is
/// anything else (comments included) is ignored.
pub open spec fn line_step_s(
    vs: Seq<(Vec3, Vec3, Vec3)>,
    fs: Seq<(usize, usize, usize)>,
    line: Seq<u8>,
    lineno: int,
) -> Result<(Seq<(Vec3, Vec3, Vec3)>, Seq<(usize, usize, usize)>), ParseError> {
    let toks = tokens_s(line);
    if toks.len() == 0 {
        Ok((vs, fs))
    } else if is_kw_vertex_s(toks[0]) {
        if toks.len() < 10 {
            Err(ParseError::InvalidVertexLine { line: lineno as usize })
        } else if parse_scalar_s(toks[1]) is None || parse_scalar_s(toks[2]) is None
            || parse_scalar_s(toks[3]) is None || parse_scalar_s(toks[4]) is None
            || parse_scalar_s(toks[5]) is None || parse_scalar_s(toks[6]) is None
            || parse_scalar_s(toks[7]) is None || parse_scalar_s(toks[8]) is None
            || parse_scalar_s(toks[9]) is None {
            Err(ParseError::InvalidNumber { line: lineno as usize })
        } else {
            let pos = Vec3 {
                x: parse_scalar_s(toks[1])->0 as i64,
                y: parse_scalar_s(toks[2])->0 as i64,
                z: parse_scalar_s(toks[3])->0 as i64,
            };
            let nor = Vec3 {
                x: parse_scalar_s(toks[4])->0 as i64,
                y: parse_scalar_s(toks[5])->0 as i64,
                z: parse_scalar_s(toks[6])->0 as i64,
            };
            let col = Vec3 {
                x: parse_scalar_s(toks[7])->0 as i64,
                y: parse_scalar_s(toks[8])->0 as i64,
                z: parse_scalar_s(toks[9])->0 as i64,
            };
            Ok((vs.push((pos, nor, col)), fs))
        }
    } else if is_kw_face_s(toks[0]) {
        if toks.len() < 4 {
            Err(ParseError::InvalidFaceLine { line: lineno as usize })
        } else if parse_index_s(toks[1]) is None || parse_index_s(toks[2]) is None
            || parse_index_s(toks[3]) is None {
            Err(ParseError::InvalidNumber { line: lineno as usize })
        } else {
            Ok(
                (
                    vs,
                    fs.push(
                        (
                            parse_index_s(toks[1])->0 as usize,
                            parse_index_s(toks[2])->0 as usize,
                            parse_index_s(toks[3])->0 as usize,
                        ),
                    ),
                ),
            )
        }
    } else {
        Ok((vs, fs))
    }
}

/// The fold of `line_step_s` over the first `n` lines; the first failing
/// line's error wins.
pub open spec fn parse_lines_s(lines: Seq<Seq<u8>>, n: int) -> Result<
    (Seq<(Vec3, Vec3, Vec3)>, Seq<(usize, usize, usize)>),
    ParseError,
>
    decreases n,
{
    if n <= 0 {
        Ok((Seq::empty(), Seq::empty()))
    } else {
        match parse_lines_s(lines, n - 1) {
            Err(e) => Err(e),
            Ok((vs, fs)) => line_step_s(vs, fs, lines[n - 1], n),
        }
    }
}

/// Once the fold fails it stays failed with the same error.
pub proof fn lemma_parse_lines_err(lines: Seq<Seq<u8>>, n: int, m: int)
    requires
        0 <= n <= m,
        parse_lines_s(lines, n) is Err,
    ensures
        parse_lines_s(lines, m) == parse_lines_s(lines, n),
    decreases m - n,
{
    if m > n {
        lemma_parse_lines_err(lines, n, m - 1);
    }
}

/// The first face with a vertex index at or beyond `vcount`, among the
/// first `n` faces; -1 when there is none.
pub open spec fn first_bad_face_s(fs: Seq<(usize, usize, usize)>, vcount: int, n: int) -> int
    decreases n,
{
    if n <= 0 {
        -1
    } else {
        let p = first_bad_face_s(fs, vcount, n - 1);
        if p >= 0 {
            p
        } else if fs[n - 1].0 >= vcount || fs[n - 1].1 >= vcount || fs[n - 1].2 >= vcount {
            n - 1
        } else {
            -1
        }
    }
}

/// A clean prefix followed by a bad face pins `first_bad_face_s`.
pub proof fn lemma_first_bad_face_from(fs: Seq<(usize, usize, usize)>, vcount: int, k: int, n: int)
    requires
        0 <= k < n,
        first_bad_face_s(fs, vcount, k) == -1,
        fs[k].0 >= vcount || fs[k].1 >= vcount || fs[k].2 >= vcount,
    ensures
        first_bad_face_s(fs, vcount, n) == k,
    decreases n,
{
    if n - 1 > k {
        lemma_first_bad_face_from(fs, vcount, k, n - 1);
    }
}

/// The vertex index that corner `i` of the expanded stream refers to.
pub open spec fn corner_index_s(fs: Seq<(usize, usize, usize)>, i: int) -> int {
    let k = i / 3;
    if i % 3 == 0 {
        fs[k].0 as int
    } else if i % 3 == 1 {
        fs[k].1 as int
    } else {
        fs[k].2 as int
    }
}

/// The per-face expansion of the raw vertices: three fresh vertex records
/// per face, carrying that face's id.
pub open spec fn expanded_vertices_s(
    vs: Seq<(Vec3, Vec3, Vec3)>,
    fs: Seq<(usize, usize, usize)>,
) -> Seq<Vertex> {
    Seq::new(
        (3 * fs.len()) as nat,
        |i: int|
            {
                let raw = vs[corner_index_s(fs, i)];
                Vertex { position: raw.0, normal: raw.1, color: raw.2, face_id: (i / 3) as usize }
            },
    )
}

/// The index stream after expansion: simply `0, 1, 2, ...`.
pub open spec fn identity_indices_s(n: nat) -> Seq<usize> {
    Seq::new(n, |i: int| i as usize)
}

/// What `parse_model` returns, stated over the text's bytes.
pub open spec fn parse_model_s(b: Seq<u8>) -> Result<(Seq<Vertex>, Seq<usize>), ParseError> {
    let lines = split_lines_s(b);
    match parse_lines_s(lines, lines.len() as int) {
        Err(e) => Err(e),
        Ok((vs, fs)) => {
            if vs.len() == 0 {
                Err(ParseError::NoVertices)
            } else if fs.len() == 0 {
                Err(ParseError::NoFaces)
            } else if fs.len() > MAX_FACES {
                Err(ParseError::TooManyFaces)
            } else if first_bad_face_s(fs, vs.len() as int, fs.len() as int) >= 0 {
                Err(
                    ParseError::IndexOutOfRange {
                        face: first_bad_face_s(fs, vs.len() as int, fs.len() as int) as usize,
                    },
                )
            } else {
                Ok((expanded_vertices_s(vs, fs), identity_indices_s((3 * fs.len()) as nat)))
            }
        },
    }
}



/// All three vectors of a raw vertex within the coordinate limit.
pub open spec fn raw_bounded(rv: (Vec3, Vec3, Vec3)) -> bool {
    vec3_bounded(rv.0, MODEL_COORD_LIMIT as int) && vec3_bounded(rv.1, MODEL_COORD_LIMIT as int)
        && vec3_bounded(rv.2, MODEL_COORD_LIMIT as int)
}

/// All fields of an expanded vertex within the coordinate limit.
pub open spec fn vertex_bounded(v: Vertex) -> bool {
    vec3_bounded(v.position, MODEL_COORD_LIMIT as int) && vec3_bounded(
        v.normal,
        MODEL_COORD_LIMIT as int,
    ) && vec3_bounded(v.color, MODEL_COORD_LIMIT as int)
}

/// A clean scan means every face is in range.
pub proof fn lemma_first_bad_face_none(fs: Seq<(usize, usize, usize)>, vcount: int, n: int)
    requires
        first_bad_face_s(fs, vcount, n) == -1,
    ensures
        forall|k: int|
            0 <= k < n ==> (#[trigger] fs[k]).0 < vcount && fs[k].1 < vcount && fs[k].2 < vcount,
    decreases n,
{
    if n > 0 {
        lemma_first_bad_face_none(fs, vcount, n - 1);
    }
}

/// Parse the text model format: vertex lines (`v`/`vertex` with nine
/// numeric fields), face lines (`f`/`face`/`tri`/`triangle` with three
/// vertex indices), everything else ignored; extra trailing fields on a
/// recognized line are ignored. Numbers must fit the grammar the module
/// documentation states: plain signed decimals below 1024 units with at
/// most six integer digits and nine significant fraction digits — there
/// is no exponent or infinity form — and plain unsigned indices of at
/// most ten digits and value at most 65535. On success the vertices are
/// expanded per face and the index stream is `0, 1, 2, ...`; on any
/// failure a descriptive error is returned and no partial model exists.
#[verifier::rlimit(100)]
pub fn parse_model(text: &str) -> (r: Result<(Vec<Vertex>, Vec<usize>), ParseError>)
    ensures
        (r is Ok) == (parse_model_s(text.spec_bytes()) is Ok),
        r is Ok ==> r->Ok_0.0@ == parse_model_s(text.spec_bytes())->Ok_0.0 && r->Ok_0.1@
            == parse_model_s(text.spec_bytes())->Ok_0.1,
        r is Err ==> r->Err_0 == parse_model_s(text.spec_bytes())->Err_0,
        r is Ok ==> r->Ok_0.0@.len() == r->Ok_0.1@.len(),
        r is Ok ==> r->Ok_0.0@.len() % 3 == 0 && 3 <= r->Ok_0.0@.len() <= 3 * MAX_FACES,
        r is Ok ==> forall|i: int|
            0 <= i < r->Ok_0.1@.len() ==> #[trigger] r->Ok_0.1@[i] == i,
        r is Ok ==> forall|i: int|
            0 <= i < r->Ok_0.0@.len() ==> vertex_bounded(#[trigger] r->Ok_0.0@[i])
                && r->Ok_0.0@[i].face_id == i / 3,
{
    let bytes: &[u8] = text.as_bytes();
    let lines: Vec<Vec<u8>> = split_lines(bytes);
    let ghost gl = split_lines_s(text.spec_bytes());
    let nl: usize = lines.len();
    let mut vraw: Vec<(Vec3, Vec3, Vec3)> = Vec::new();
    let mut faces: Vec<(usize, usize, usize)> = Vec::new();
    let mut li: usize = 0;
    while li < nl
        invariant
            gl == split_lines_s(text.spec_bytes()),
            nl == lines@.len(),
            lines@.map_values(|v: Vec<u8>| v@) == gl,
            0 <= li <= nl,
            parse_lines_s(gl, li as int) == Ok::<
                (Seq<(Vec3, Vec3, Vec3)>, Seq<(usize, usize, usize)>),
                ParseError,
            >((vraw@, faces@)),
            forall|i: int| 0 <= i < vraw@.len() ==> raw_bounded(#[trigger] vraw@[i]),
            forall|i: int|
                0 <= i < faces@.len() ==> (#[trigger] faces@[i]).0 <= 65535 && faces@[i].1
                    <= 65535 && faces@[i].2 <= 65535,
        decreases nl - li,
    {
        let line: &Vec<u8> = &lines[li];
        proof {
            assert(line@ == gl[li as int]);
        }
        let toks: Vec<Vec<u8>> = tokenize(line.as_slice());
        let ghost gt = tokens_s(gl[li as int]);
        proof {
            assert(toks@.map_values(|v: Vec<u8>| v@) == gt);
        }
        if toks.len() == 0 {
        } else if is_kw_vertex(&toks[0]) {
            proof {
                assert(toks@[0]@ == gt[0]);
            }
            if toks.len() < 10 {
                proof {
                    assert(parse_lines_s(gl, li as int + 1) == Err::<
                        (Seq<(Vec3, Vec3, Vec3)>, Seq<(usize, usize, usize)>),
                        ParseError,
                    >(ParseError::InvalidVertexLine { line: (li + 1) as usize }));
                    lemma_parse_lines_err(gl, li as int + 1, nl as int);
                }
                return Err(ParseError::InvalidVertexLine { line: li + 1 });
            }
            proof {
                assert(toks@[1]@ == gt[1] && toks@[2]@ == gt[2] && toks@[3]@ == gt[3]
                    && toks@[4]@ == gt[4] && toks@[5]@ == gt[5] && toks@[6]@ == gt[6]
                    && toks@[7]@ == gt[7] && toks@[8]@ == gt[8] && toks@[9]@ == gt[9]);
            }
            let p1 = parse_scalar(toks[1].as_slice());
            let p2 = parse_scalar(toks[2].as_slice());
            let p3 = parse_scalar(toks[3].as_slice());
            let p4 = parse_scalar(toks[4].as_slice());
            let p5 = parse_scalar(toks[5].as_slice());
            let p6 = parse_scalar(toks[6].as_slice());
            let p7 = parse_scalar(toks[7].as_slice());
            let p8 = parse_scalar(toks[8].as_slice());
            let p9 = parse_scalar(toks[9].as_slice());
            if p1.is_none() || p2.is_none() || p3.is_none() || p4.is_none() || p5.is_none()
                || p6.is_none() || p7.is_none() || p8.is_none() || p9.is_none() {
                proof {
                    lemma_parse_lines_err(gl, li as int + 1, nl as int);
                }
                return Err(ParseError::InvalidNumber { line: li + 1 });
            }
            let pos = Vec3 { x: p1.unwrap(), y: p2.unwrap(), z: p3.unwrap() };
            let nor = Vec3 { x: p4.unwrap(), y: p5.unwrap(), z: p6.unwrap() };
            let col = Vec3 { x: p7.unwrap(), y: p8.unwrap(), z: p9.unwrap() };
            vraw.push((pos, nor, col));
        } else if is_kw_face(&toks[0]) {
            proof {
                assert(toks@[0]@ == gt[0]);
            }
            if toks.len() < 4 {
                proof {
                    lemma_parse_lines_err(gl, li as int + 1, nl as int);
                }
                return Err(ParseError::InvalidFaceLine { line: li + 1 });
            }
            proof {
                assert(toks@[1]@ == gt[1] && toks@[2]@ == gt[2] && toks@[3]@ == gt[3]);
            }
            let q1 = parse_index(toks[1].as_slice());
            let q2 = parse_index(toks[2].as_slice());
            let q3 = parse_index(toks[3].as_slice());
            if q1.is_none() || q2.is_none() || q3.is_none() {
                proof {
                    lemma_parse_lines_err(gl, li as int + 1, nl as int);
                }
                return Err(ParseError::InvalidNumber { line: li + 1 });
            }
            faces.push((q1.unwrap(), q2.unwrap(), q3.unwrap()));
        } else {
            proof {
                assert(toks@[0]@ == gt[0]);
            }
        }
        li = li + 1;
    }
    if vraw.len() == 0 {
        return Err(ParseError::NoVertices);
    }
    if faces.len() == 0 {
        return Err(ParseError::NoFaces);
    }
    if faces.len() > MAX_FACES {
        return Err(ParseError::TooManyFaces);
    }
    let vcount: usize = vraw.len();
    let nf: usize = faces.len();
    let mut k: usize = 0;
    while k < nf
        invariant
            gl == split_lines_s(text.spec_bytes()),
            parse_lines_s(gl, gl.len() as int) == Ok::<
                (Seq<(Vec3, Vec3, Vec3)>, Seq<(usize, usize, usize)>),
                ParseError,
            >((vraw@, faces@)),
            nf == faces@.len(),
            vcount == vraw@.len(),
            1 <= vcount,
            1 <= nf <= MAX_FACES,
            0 <= k <= nf,
            first_bad_face_s(faces@, vcount as int, k as int) == -1,
        decreases nf - k,
    {
        let f: (usize, usize, usize) = faces[k];
        if f.0 >= vcount || f.1 >= vcount || f.2 >= vcount {
            proof {
                lemma_first_bad_face_from(faces@, vcount as int, k as int, nf as int);
            }
            return Err(ParseError::IndexOutOfRange { face: k });
        }
        k = k + 1;
    }
    proof {
        lemma_first_bad_face_none(faces@, vcount as int, nf as int);
    }
    let mut verts: Vec<Vertex> = Vec::new();
    let mut idx: Vec<usize> = Vec::new();
    let mut j: usize = 0;
    while j < nf
        invariant
            gl == split_lines_s(text.spec_bytes()),
            parse_lines_s(gl, gl.len() as int) == Ok::<
                (Seq<(Vec3, Vec3, Vec3)>, Seq<(usize, usize, usize)>),
                ParseError,
            >((vraw@, faces@)),
            nf == faces@.len(),
            vcount == vraw@.len(),
            1 <= vcount,
            1 <= nf <= MAX_FACES,
            first_bad_face_s(faces@, vcount as int, nf as int) == -1,
            0 <= j <= nf,
            forall|i: int| 0 <= i < vraw@.len() ==> raw_bounded(#[trigger] vraw@[i]),
            forall|i: int|
                0 <= i < faces@.len() ==> (#[trigger] faces@[i]).0 < vcount && faces@[i].1
                    < vcount && faces@[i].2 < vcount,
            verts@.len() == 3 * j,
            idx@.len() == 3 * j,
            forall|i: int|
                0 <= i < 3 * j ==> #[trigger] verts@[i] == expanded_vertices_s(vraw@, faces@)[i],
            forall|i: int| 0 <= i < 3 * j ==> #[trigger] idx@[i] == i,
        decreases nf - j,
    {
        let f: (usize, usize, usize) = faces[j];
        proof {
            vstd::arithmetic::div_mod::lemma_fundamental_div_mod_converse_div(
                3 * (j as int),
                3,
                j as int,
                0,
            );
            vstd::arithmetic::div_mod::lemma_fundamental_div_mod_converse_mod(
                3 * (j as int),
                3,
                j as int,
                0,
            );
            vstd::arithmetic::div_mod::lemma_fundamental_div_mod_converse_div(
                3 * (j as int) + 1,
                3,
                j as int,
                1,
            );
            vstd::arithmetic::div_mod::lemma_fundamental_div_mod_converse_mod(
                3 * (j as int) + 1,
                3,
                j as int,
                1,
            );
            vstd::arithmetic::div_mod::lemma_fundamental_div_mod_converse_div(
                3 * (j as int) + 2,
                3,
                j as int,
                2,
            );
            vstd::arithmetic::div_mod::lemma_fundamental_div_mod_converse_mod(
                3 * (j as int) + 2,
                3,
                j as int,
                2,
            );
        }
        let r0: (Vec3, Vec3, Vec3) = vraw[f.0];
        let r1: (Vec3, Vec3, Vec3) = vraw[f.1];
        let r2: (Vec3, Vec3, Vec3) = vraw[f.2];
        verts.push(Vertex { position: r0.0, normal: r0.1, color: r0.2, face_id: j });
        verts.push(Vertex { position: r1.0, normal: r1.1, color: r1.2, face_id: j });
        verts.push(Vertex { position: r2.0, normal: r2.1, color: r2.2, face_id: j });
        idx.push(3 * j);
        idx.push(3 * j + 1);
        idx.push(3 * j + 2);
        j = j + 1;
    }
    proof {
        assert(verts@ =~= expanded_vertices_s(vraw@, faces@));
        assert(idx@ =~= identity_indices_s((3 * faces@.len()) as nat));
    }
    Ok((verts, idx))
}



/// Round trip: for a model text that parses with `N` declared faces,
/// extracting triangles from the parsed geometry yields exactly `N`
/// triangles, and triangle `k` holds the three corner positions that the
/// `k`-th face line declared, in declared order.
pub proof fn lemma_parse_extract_round_trip(b: Seq<u8>)
    requires
        parse_model_s(b) is Ok,
    ensures
        ({
            let lines = split_lines_s(b);
            let parsed = parse_lines_s(lines, lines.len() as int)->Ok_0;
            let vs = parsed.0;
            let fs = parsed.1;
            let out = parse_model_s(b)->Ok_0;
            &&& extract_s(out.0, out.1).len() == fs.len()
            &&& forall|k: int|
                0 <= k < fs.len() ==> #[trigger] extract_s(out.0, out.1)[k] == (Triangle {
                    v0: vs[fs[k].0 as int].0,
                    v1: vs[fs[k].1 as int].0,
                    v2: vs[fs[k].2 as int].0,
                })
        }),
{
    let lines = split_lines_s(b);
    let parsed = parse_lines_s(lines, lines.len() as int)->Ok_0;
    let vs = parsed.0;
    let fs = parsed.1;
    let out = parse_model_s(b)->Ok_0;
    lemma_first_bad_face_none(fs, vs.len() as int, fs.len() as int);
    assert(out.0 == expanded_vertices_s(vs, fs));
    assert(out.1 == identity_indices_s((3 * fs.len()) as nat));
    assert(out.1.len() == 3 * fs.len());
    assert(out.1.len() / 3 == fs.len()) by (nonlinear_arith)
        requires
            out.1.len() == 3 * fs.len(),
    ;
    assert forall|k: int|
        0 <= k < fs.len() implies #[trigger] extract_s(out.0, out.1)[k] == (Triangle {
        v0: vs[fs[k].0 as int].0,
        v1: vs[fs[k].1 as int].0,
        v2: vs[fs[k].2 as int].0,
    }) by {
        vstd::arithmetic::div_mod::lemma_fundamental_div_mod_converse_div(3 * k, 3, k, 0);
        vstd::arithmetic::div_mod::lemma_fundamental_div_mod_converse_mod(3 * k, 3, k, 0);
        vstd::arithmetic::div_mod::lemma_fundamental_div_mod_converse_div(3 * k + 1, 3, k, 1);
        vstd::arithmetic::div_mod::lemma_fundamental_div_mod_converse_mod(3 * k + 1, 3, k, 1);
        vstd::arithmetic::div_mod::lemma_fundamental_div_mod_converse_div(3 * k + 2, 3, k, 2);
        vstd::arithmetic::div_mod::lemma_fundamental_div_mod_converse_mod(3 * k + 2, 3, k, 2);
        assert(out.1[3 * k] == 3 * k && out.1[3 * k + 1] == 3 * k + 1 && out.1[3 * k + 2] == 3 * k
            + 2);
        assert(out.0[3 * k].position == vs[fs[k].0 as int].0);
        assert(out.0[3 * k + 1].position == vs[fs[k].1 as int].0);
        assert(out.0[3 * k + 2].position == vs[fs[k].2 as int].0);
    }
}



/// The wireframe overlay for one selected triangle: its three edges as
/// six line-list vertices, in the triangle's own vertex order.
pub fn wireframe_vertices(t: &Triangle) -> (r: [Vec3; 6])
    ensures
        r[0] == t.v0 && r[1] == t.v1,
        r[2] == t.v1 && r[3] == t.v2,
        r[4] == t.v2 && r[5] == t.v0,
{
    [t.v0, t.v1, t.v1, t.v2, t.v2, t.v0]
}


} // verus!
