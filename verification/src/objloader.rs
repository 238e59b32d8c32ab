//! Line-oriented parsing of the text model format.
//!
//! Recognized lines: `v x y z` (vertex, three decimals), `vn x y z` (normal),
//! `f a//n b//n c//n` (face of 1-based vertex/normal index pairs). Any other
//! prefix is ignored. Decimals are read into the fixed-point scalar; an
//! unreadable token makes the parse of its line fail, and the caller treats
//! that as a fatal load error before any render begins.

use vstd::prelude::*;

verus! {

use crate::fixed::{signed, FX_ONE};

pub open spec fn is_space(b: u8) -> bool {
    b == 32 || b == 9 || b == 13
}

pub open spec fn is_digit(b: u8) -> bool {
    48 <= b <= 57
}

/// The number a digit string denotes.
pub open spec fn digits_val(s: Seq<u8>) -> int
    decreases s.len(),
{
    if s.len() == 0 {
        0
    } else {
        digits_val(s.drop_last()) * 10 + (s.last() - 48)
    }
}

pub open spec fn all_digits(s: Seq<u8>) -> bool {
    forall|i: int| 0 <= i < s.len() ==> is_digit(#[trigger] s[i])
}

pub open spec fn pow10(k: nat) -> int
    decreases k,
{
    if k == 0 {
        1
    } else {
        10 * pow10((k - 1) as nat)
    }
}

pub proof fn lemma_digits_val_nonneg(s: Seq<u8>)
    requires all_digits(s),
    ensures digits_val(s) >= 0,
    decreases s.len(),
{
    if s.len() > 0 {
        assert(all_digits(s.drop_last()));
        lemma_digits_val_nonneg(s.drop_last());
        assert(is_digit(s.last()));
    }
}

/// A digit string of length `k` denotes less than `10^k`.
pub proof fn lemma_digits_val_upper(s: Seq<u8>)
    requires all_digits(s),
    ensures digits_val(s) < pow10(s.len()),
    decreases s.len(),
{
    if s.len() > 0 {
        assert(all_digits(s.drop_last()));
        lemma_digits_val_upper(s.drop_last());
        assert(is_digit(s.last()));
    }
}

/// Extending a digit string does not decrease its value.
pub proof fn lemma_digits_val_prefix(s: Seq<u8>, i: int)
    requires
        all_digits(s),
        0 <= i <= s.len(),
    ensures digits_val(s.take(i)) <= digits_val(s),
    decreases s.len() - i,
{
    if i == s.len() {
        assert(s.take(i) =~= s);
    } else {
        lemma_digits_val_prefix(s, i + 1);
        let t = s.take(i + 1);
        assert(all_digits(t));
        assert(t.drop_last() =~= s.take(i));
        assert(all_digits(s.take(i)));
        lemma_digits_val_nonneg(s.take(i));
        assert(is_digit(t.last()));
        assert(digits_val(t) == digits_val(s.take(i)) * 10 + (t.last() - 48));
    }
}

/// The whitespace tokens of `s[i..]`, with `cur` the partial token read so
/// far.
pub open spec fn tokens_from(s: Seq<u8>, i: int, cur: Seq<u8>) -> Seq<Seq<u8>>
    decreases s.len() - i,
{
    if i < 0 || i >= s.len() {
        if cur.len() > 0 {
            seq![cur]
        } else {
            Seq::<Seq<u8>>::empty()
        }
    } else if is_space(s[i]) {
        if cur.len() > 0 {
            seq![cur] + tokens_from(s, i + 1, Seq::<u8>::empty())
        } else {
            tokens_from(s, i + 1, Seq::<u8>::empty())
        }
    } else {
        tokens_from(s, i + 1, cur.push(s[i]))
    }
}

pub open spec fn tokens(s: Seq<u8>) -> Seq<Seq<u8>> {
    tokens_from(s, 0, Seq::<u8>::empty())
}

/// Split a line into its whitespace-separated tokens.
pub fn split_tokens(line: &[u8]) -> (toks: Vec<Vec<u8>>)
    ensures toks@.map_values(|t: Vec<u8>| t@) == tokens(line@),
{
    let mut toks: Vec<Vec<u8>> = Vec::new();
    let mut cur: Vec<u8> = Vec::new();
    let mut i: usize = 0;
    while i < line.len()
        invariant
            i <= line@.len(),
            tokens(line@) == toks@.map_values(|t: Vec<u8>| t@) + tokens_from(line@, i as int, cur@),
        decreases line@.len() - i,
    {
        let b: u8 = line[i];
        if b == 32 || b == 9 || b == 13 {
            if cur.len() == 0 {
                proof {
                    assert(cur@ =~= Seq::<u8>::empty());
                }
            }
            if cur.len() > 0 {
                proof {
                    assert(toks@.push(cur).map_values(|t: Vec<u8>| t@) =~= toks@.map_values(
                        |t: Vec<u8>| t@,
                    ).push(cur@));
                    assert(toks@.map_values(|t: Vec<u8>| t@).push(cur@) + tokens_from(
                        line@,
                        i + 1,
                        Seq::<u8>::empty(),
                    ) =~= toks@.map_values(|t: Vec<u8>| t@) + (seq![cur@] + tokens_from(
                        line@,
                        i + 1,
                        Seq::<u8>::empty(),
                    )));
                }
                toks.push(cur);
                cur = Vec::new();
            }
        } else {
            cur.push(b);
        }
        i = i + 1;
    }
    if cur.len() > 0 {
        proof {
            assert(toks@.push(cur).map_values(|t: Vec<u8>| t@) =~= toks@.map_values(
                |t: Vec<u8>| t@,
            ).push(cur@));
            assert(toks@.map_values(|t: Vec<u8>| t@).push(cur@) =~= toks@.map_values(
                |t: Vec<u8>| t@,
            ) + seq![cur@]);
        }
        toks.push(cur);
    } else {
        proof {
            assert(toks@.map_values(|t: Vec<u8>| t@) + Seq::<Seq<u8>>::empty() =~= toks@.map_values(
                |t: Vec<u8>| t@,
            ));
        }
    }
    toks
}

/// Parse `t[start..end]` as a digit string whose value is at most `max`.
pub fn parse_digits(t: &[u8], start: usize, end: usize, max: u64) -> (r: Option<u64>)
    requires start <= end <= t@.len(),
    ensures
        r matches Some(v) ==> start < end && all_digits(t@.subrange(start as int, end as int)) && v
            as int == digits_val(t@.subrange(start as int, end as int)) && v <= max,
        r is None ==> start >= end || !all_digits(t@.subrange(start as int, end as int))
            || digits_val(t@.subrange(start as int, end as int)) > max as int,
{
    if start >= end {
        return None;
    }
    let ghost whole = t@.subrange(start as int, end as int);
    let mut acc: u64 = 0;
    let mut i: usize = start;
    while i < end
        invariant
            start <= i <= end <= t@.len(),
            whole == t@.subrange(start as int, end as int),
            all_digits(t@.subrange(start as int, i as int)),
            acc as int == digits_val(t@.subrange(start as int, i as int)),
            acc <= max,
        decreases end - i,
    {
        let b: u8 = t[i];
        proof {
            assert(whole.take(i - start) =~= t@.subrange(start as int, i as int));
            assert(whole.take(i + 1 - start) =~= t@.subrange(start as int, i as int + 1));
            assert(t@.subrange(start as int, i as int + 1).drop_last() =~= t@.subrange(
                start as int,
                i as int,
            ));
            assert(t@.subrange(start as int, i as int + 1).last() == t@[i as int]);
        }
        if !(48 <= b && b <= 57) {
            proof {
                assert(!is_digit(whole[i - start]));
            }
            return None;
        }
        let d: u64 = (b - 48) as u64;
        if d > max || acc > (max - d) / 10 {
            proof {
                let pre = t@.subrange(start as int, i as int + 1);
                assert(digits_val(pre) == acc * 10 + d);
                if d <= max {
                    vstd::arithmetic::div_mod::lemma_fundamental_div_mod((max - d) as int, 10);
                }
                assert(digits_val(pre) > max as int);
                if all_digits(whole) {
                    lemma_digits_val_prefix(whole, i + 1 - start);
                }
            }
            return None;
        }
        proof {
            vstd::arithmetic::div_mod::lemma_fundamental_div_mod((max - d) as int, 10);
        }
        acc = acc * 10 + d;
        i = i + 1;
    }
    proof {
        assert(t@.subrange(start as int, end as int) =~= t@.subrange(start as int, i as int));
    }
    Some(acc)
}

/// The first position in `t` at or after `i` where `//` begins.
pub open spec fn first_dslash_from(t: Seq<u8>, i: int) -> Option<int>
    decreases t.len() - i,
{
    if i < 0 || i + 1 >= t.len() {
        None
    } else if t[i] == 47 && t[i + 1] == 47 {
        Some(i)
    } else {
        first_dslash_from(t, i + 1)
    }
}

/// The vertex/normal index pair a face token denotes: digits before the
/// first `//` and digits after it, up to the next `//` or the end.
pub open spec fn token_val(t: Seq<u8>) -> Option<(int, int)> {
    match first_dslash_from(t, 0) {
        None => None,
        Some(k) => {
            let end2 = match first_dslash_from(t, k + 2) {
                Some(k2) => k2,
                None => t.len() as int,
            };
            let left = t.take(k);
            let mid = t.subrange(k + 2, end2);
            if k > 0 && all_digits(left) && digits_val(left) <= usize::MAX as int && end2 > k + 2
                && all_digits(mid) && digits_val(mid) <= usize::MAX as int {
                Some((digits_val(left), digits_val(mid)))
            } else {
                None
            }
        },
    }
}

/// Find the first `//` at or after `from`.
fn find_dslash(t: &[u8], from: usize) -> (r: Option<usize>)
    requires from <= t@.len(),
    ensures
        r matches Some(k) ==> first_dslash_from(t@, from as int) == Some(k as int) && from <= k
            && k + 1 < t@.len(),
        r is None ==> first_dslash_from(t@, from as int) is None,
{
    let n: usize = t.len();
    if n < 2 {
        return None;
    }
    let mut i: usize = from;
    while i < n - 1
        invariant
            from <= i,
            i <= t@.len(),
            n == t@.len(),
            n >= 2,
            first_dslash_from(t@, from as int) == first_dslash_from(t@, i as int),
        decreases t@.len() - i,
    {
        if t[i] == 47 && t[i + 1] == 47 {
            return Some(i);
        }
        i = i + 1;
    }
    None
}

/// Parse one face token `a//b` into its index pair.
pub fn parse_face_token(t: &[u8]) -> (r: Option<(usize, usize)>)
    ensures
        r matches Some(p) ==> token_val(t@) == Some((p.0 as int, p.1 as int)),
        r is None ==> token_val(t@) is None,
{
    let k = match find_dslash(t, 0) {
        Some(k) => k,
        None => {
            return None;
        },
    };
    let n: usize = t.len();
    proof {
        assert(k + 2 <= n);
    }
    let end2: usize = match find_dslash(t, k + 2) {
        Some(k2) => k2,
        None => t.len(),
    };
    if k == 0 {
        return None;
    }
    let left = parse_digits(t, 0, k, usize::MAX as u64);
    let mid = parse_digits(t, k + 2, end2, usize::MAX as u64);
    proof {
        assert(t@.subrange(0, k as int) =~= t@.take(k as int));
    }
    match (left, mid) {
        (Some(a), Some(b)) => Some((a as usize, b as usize)),
        _ => None,
    }
}

/// The fixed-point value a decimal token denotes: an optional minus sign,
/// then digits with at most one dot; the fraction is truncated at the
/// fixed-point resolution. Absent when the token is malformed or the value
/// cannot be represented.
pub open spec fn dec_val(t: Seq<u8>) -> Option<int> {
    let neg = t.len() > 0 && t[0] == 45;
    let body = if neg {
        t.skip(1)
    } else {
        t
    };
    match first_dot(body, 0) {
        None => if body.len() > 0 && all_digits(body) && digits_val(body) <= 8796093022207 {
            Some(signed(neg, digits_val(body) * FX_ONE as int))
        } else {
            None
        },
        Some(k) => {
            let ip = body.take(k);
            let fp = body.skip(k + 1);
            if (ip.len() > 0 || fp.len() > 0) && all_digits(ip) && all_digits(fp) && digits_val(ip)
                <= 8796093022207 && fp.len() <= 18 && first_dot(fp, 0) is None {
                let total = digits_val(ip) * FX_ONE as int + (digits_val(fp) * FX_ONE as int)
                    / pow10(fp.len());
                if total <= i64::MAX as int {
                    Some(signed(neg, total))
                } else {
                    None
                }
            } else {
                None
            }
        },
    }
}

/// The first dot in `t` at or after `i`.
pub open spec fn first_dot(t: Seq<u8>, i: int) -> Option<int>
    decreases t.len() - i,
{
    if i < 0 || i >= t.len() {
        None
    } else if t[i] == 46 {
        Some(i)
    } else {
        first_dot(t, i + 1)
    }
}

fn find_dot(t: &[u8], from: usize) -> (r: Option<usize>)
    requires from <= t@.len(),
    ensures
        r matches Some(k) ==> first_dot(t@, from as int) == Some(k as int) && from <= k && k
            < t@.len(),
        r is None ==> first_dot(t@, from as int) is None,
{
    let mut i: usize = from;
    while i < t.len()
        invariant
            from <= i,
            i <= t@.len(),
            first_dot(t@, from as int) == first_dot(t@, i as int),
        decreases t@.len() - i,
    {
        if t[i] == 46 {
            return Some(i);
        }
        i = i + 1;
    }
    None
}

fn pow10_exec(k: usize) -> (r: u64)
    requires k <= 18,
    ensures r as int == pow10(k as nat),
{
    let mut r: u64 = 1;
    let mut i: usize = 0;
    while i < k
        invariant
            i <= k <= 18,
            r as int == pow10(i as nat),
            r <= 1000000000000000000,
        decreases k - i,
    {
        proof {
            lemma_pow10_bound(i as nat);
            lemma_pow10_bound((i + 1) as nat);
        }
        r = r * 10;
        i = i + 1;
    }
    r
}

proof fn lemma_pow10_pos(k: nat)
    ensures pow10(k) >= 1,
    decreases k,
{
    if k > 0 {
        lemma_pow10_pos((k - 1) as nat);
    }
}

proof fn lemma_pow10_18()
    ensures pow10(18) == 1000000000000000000,
{
    assert(pow10(0) == 1);
    assert(pow10(1) == 10);
    assert(pow10(2) == 100);
    assert(pow10(3) == 1000);
    assert(pow10(4) == 10000);
    assert(pow10(5) == 100000);
    assert(pow10(6) == 1000000);
    assert(pow10(7) == 10000000);
    assert(pow10(8) == 100000000);
    assert(pow10(9) == 1000000000);
    assert(pow10(10) == 10000000000);
    assert(pow10(11) == 100000000000);
    assert(pow10(12) == 1000000000000);
    assert(pow10(13) == 10000000000000);
    assert(pow10(14) == 100000000000000);
    assert(pow10(15) == 1000000000000000);
    assert(pow10(16) == 10000000000000000);
    assert(pow10(17) == 100000000000000000);
    assert(pow10(18) == 1000000000000000000);
}

proof fn lemma_pow10_bound(k: nat)
    requires k <= 18,
    ensures pow10(k) <= 1000000000000000000,
    decreases 18 - k,
{
    lemma_pow10_18();
    if k < 18 {
        lemma_pow10_bound(k + 1);
        lemma_pow10_pos(k);
        assert(pow10(k + 1) == 10 * pow10(k));
    }
}

/// Parse a decimal token into the fixed-point scalar.
pub fn parse_decimal(t: &[u8]) -> (r: Option<i64>)
    ensures
        r matches Some(v) ==> dec_val(t@) == Some(v as int),
        r is None ==> dec_val(t@) is None,
{
    let neg: bool = t.len() > 0 && t[0] == 45;
    let start: usize = if neg {
        1
    } else {
        0
    };
    let ghost body = if neg {
        t@.skip(1)
    } else {
        t@
    };
    proof {
        assert(body =~= t@.subrange(start as int, t@.len() as int));
    }
    let dot = find_dot_rel(t, start);
    match dot {
        None => {
            let v = parse_digits(t, start, t.len(), 8796093022207);
            proof {
                assert(t@.subrange(start as int, t@.len() as int) =~= body);
            }
            match v {
                Some(d) => {
                    proof {
                        assert(d as int * FX_ONE as int <= 8796093022207int * 1048576int)
                            by (nonlinear_arith)
                            requires 0 <= d as int <= 8796093022207int,
                        ;
                    }
                    let raw: i64 = (d as i64) * FX_ONE;
                    if neg {
                        Some(-raw)
                    } else {
                        Some(raw)
                    }
                },
                None => None,
            }
        },
        Some(kk) => {
            // kk is the dot position relative to `body`
            let k: usize = kk;
            proof {
                assert(t@.subrange(start as int, start as int + k as int) =~= body.take(k as int));
                assert(t@.subrange(start as int + k as int + 1, t@.len() as int) =~= body.skip(
                    k as int + 1,
                ));
            }
            let fplen: usize = t.len() - (start + k + 1);
            if fplen > 18 {
                return None;
            }
            if find_dot_rel(t, start + k + 1).is_some() {
                return None;
            }
            let ip = parse_digits(t, start, start + k, 8796093022207);
            let fp = parse_digits(t, start + k + 1, t.len(), u64::MAX);
            proof {
                let fps = body.skip(k as int + 1);
                if fps.len() > 0 && all_digits(fps) {
                    lemma_digits_val_upper(fps);
                    lemma_pow10_bound(fps.len());
                    lemma_digits_val_nonneg(fps);
                    lemma_pow10_18();
                }
            }
            let ip_v: u64 = match ip {
                Some(v) => v,
                None => {
                    if k == 0 {
                        0
                    } else {
                        return None;
                    }
                },
            };
            let fp_v: u64 = match fp {
                Some(v) => v,
                None => {
                    if start + k + 1 == t.len() {
                        0
                    } else {
                        return None;
                    }
                },
            };
            if k == 0 && start + k + 1 == t.len() {
                return None;
            }
            proof {
                let fps = body.skip(k as int + 1);
                if fps.len() > 0 {
                    lemma_digits_val_upper(fps);
                    lemma_digits_val_nonneg(fps);
                }
                lemma_frac_bound(fp_v as int, fplen as nat);
                assert(ip_v as int * FX_ONE as int <= 8796093022207int * 1048576int)
                    by (nonlinear_arith)
                    requires 0 <= ip_v as int <= 8796093022207int,
                ;
            }
            let p10: u64 = pow10_exec(fplen);
            let frac_part: u64 = (((fp_v as u128) * (FX_ONE as u128)) / (p10 as u128)) as u64;
            let total: u128 = (ip_v as u128) * (FX_ONE as u128) + frac_part as u128;
            if total > i64::MAX as u128 {
                return None;
            }
            let raw: i64 = total as i64;
            if neg {
                Some(-raw)
            } else {
                Some(raw)
            }
        },
    }
}

/// A fraction of `k` digits scales into less than one fixed-point unit
/// beyond its integer part.
proof fn lemma_frac_bound(v: int, k: nat)
    requires
        k <= 18,
        0 <= v < pow10(k),
    ensures (v * FX_ONE as int) / pow10(k) < FX_ONE as int && (v * FX_ONE as int) / pow10(k) >= 0,
{
    lemma_pow10_pos(k);
    assert(v * FX_ONE as int <= (pow10(k) - 1) * FX_ONE as int) by (nonlinear_arith)
        requires v <= pow10(k) - 1, FX_ONE as int > 0,
    ;
    assert(v * FX_ONE as int >= 0) by (nonlinear_arith)
        requires v >= 0, FX_ONE as int > 0,
    ;
    vstd::arithmetic::div_mod::lemma_div_pos_is_pos(v * FX_ONE as int, pow10(k));
    vstd::arithmetic::div_mod::lemma_div_is_ordered(
        v * FX_ONE as int,
        (pow10(k) - 1) * FX_ONE as int,
        pow10(k),
    );
    assert(((pow10(k) - 1) * FX_ONE as int) / pow10(k) < FX_ONE as int) by (nonlinear_arith)
        requires pow10(k) >= 1, FX_ONE as int == 1048576,
    ;
}

/// `find_dot` with a position relative to the slice start offset.
fn find_dot_rel(t: &[u8], start: usize) -> (r: Option<usize>)
    requires start <= t@.len(),
    ensures
        ({
            let body = t@.skip(start as int);
            match r {
                Some(k) => first_dot(body, 0) == Some(k as int) && start + k < t@.len(),
                None => first_dot(body, 0) is None,
            }
        }),
{
    let r = find_dot(t, start);
    proof {
        lemma_first_dot_shift(t@, start as int, start as int);
    }
    match r {
        Some(k) => Some(k - start),
        None => None,
    }
}

/// Scanning for a dot in a suffix matches scanning the whole with an offset.
proof fn lemma_first_dot_shift(t: Seq<u8>, start: int, i: int)
    requires 0 <= start <= i <= t.len(),
    ensures
        first_dot(t, i) == match first_dot(t.skip(start), i - start) {
            Some(k) => Some(k + start),
            None => None::<int>,
        },
    decreases t.len() - i,
{
    let body = t.skip(start);
    if i < t.len() {
        assert(body[i - start] == t[i]);
        lemma_first_dot_shift(t, start, i + 1);
    }
}

pub struct OBJLoader {
    pub vertices: Vec<(i64, i64, i64)>,
    pub normals: Vec<(i64, i64, i64)>,
    pub faces: Vec<Vec<(usize, usize)>>,
}

pub open spec fn faces_view(l: OBJLoader) -> Seq<Seq<(usize, usize)>> {
    l.faces@.map_values(|f: Vec<(usize, usize)>| f@)
}

pub open spec fn starts_v(s: Seq<u8>) -> bool {
    s.len() >= 2 && s[0] == 118 && s[1] == 32
}

pub open spec fn starts_vn(s: Seq<u8>) -> bool {
    s.len() >= 3 && s[0] == 118 && s[1] == 110 && s[2] == 32
}

pub open spec fn starts_f(s: Seq<u8>) -> bool {
    s.len() >= 2 && s[0] == 102 && s[1] == 32
}

/// The coordinate triple a well-formed vertex or normal line denotes.
pub open spec fn coords_of_tokens(ts: Seq<Seq<u8>>) -> (i64, i64, i64) {
    (
        dec_val(ts[1]).unwrap() as i64,
        dec_val(ts[2]).unwrap() as i64,
        dec_val(ts[3]).unwrap() as i64,
    )
}

/// A vertex or normal line parses when it has exactly four tokens, each
/// coordinate a readable decimal; any other arity or an unreadable token is
/// a malformed line, reported as a failure at load time.
pub open spec fn coords_post(line: Seq<u8>, ok: bool, s0: Seq<(i64, i64, i64)>, s1: Seq<(i64, i64, i64)>) -> bool {
    let ts = tokens(line);
    if ts.len() == 4 && dec_val(ts[1]) is Some && dec_val(ts[2]) is Some && dec_val(ts[3])
        is Some {
        ok && s1 == s0.push(coords_of_tokens(ts))
    } else {
        !ok && s1 == s0
    }
}

/// The index pairs a well-formed face line denotes.
pub open spec fn face_of_tokens(ts: Seq<Seq<u8>>) -> Seq<(usize, usize)> {
    ts.skip(1).map_values(
        |t: Seq<u8>| (token_val(t).unwrap().0 as usize, token_val(t).unwrap().1 as usize),
    )
}

/// A face line parses when every token after the leading `f` is a readable
/// `a//b` pair.
pub open spec fn face_post(line: Seq<u8>, ok: bool, s0: Seq<Seq<(usize, usize)>>, s1: Seq<Seq<(usize, usize)>>) -> bool {
    let ts = tokens(line);
    if ts.len() >= 1 && (forall|k: int| 1 <= k < ts.len() ==> (#[trigger] token_val(ts[k])) is Some) {
        ok && s1 == s0.push(face_of_tokens(ts))
    } else {
        !ok && s1 == s0
    }
}

impl OBJLoader {
    pub fn new() -> (r: Self)
        ensures
            r.vertices@ =~= Seq::<(i64, i64, i64)>::empty(),
            r.normals@ =~= Seq::<(i64, i64, i64)>::empty(),
            faces_view(r) =~= Seq::<Seq<(usize, usize)>>::empty(),
    {
        let r = OBJLoader { vertices: Vec::new(), normals: Vec::new(), faces: Vec::new() };
        proof {
            assert(faces_view(r) =~= Seq::<Seq<(usize, usize)>>::empty());
        }
        r
    }

    /// Parse a `v x y z` line into the vertex list.
    pub fn parse_vertex(&mut self, line: &[u8]) -> (ok: bool)
        ensures
            coords_post(line@, ok, old(self).vertices@, final(self).vertices@),
            final(self).normals@ == old(self).normals@,
            faces_view(*final(self)) == faces_view(*old(self)),
    {
        let toks = split_tokens(line);
        if toks.len() != 4 {
            return false;
        }
        let x = parse_decimal(toks[1].as_slice());
        let y = parse_decimal(toks[2].as_slice());
        let z = parse_decimal(toks[3].as_slice());
        match (x, y, z) {
            (Some(a), Some(b), Some(c)) => {
                self.vertices.push((a, b, c));
                true
            },
            _ => false,
        }
    }

    /// Parse a `vn x y z` line into the normal list.
    pub fn parse_normal(&mut self, line: &[u8]) -> (ok: bool)
        ensures
            coords_post(line@, ok, old(self).normals@, final(self).normals@),
            final(self).vertices@ == old(self).vertices@,
            faces_view(*final(self)) == faces_view(*old(self)),
    {
        let toks = split_tokens(line);
        if toks.len() != 4 {
            return false;
        }
        let x = parse_decimal(toks[1].as_slice());
        let y = parse_decimal(toks[2].as_slice());
        let z = parse_decimal(toks[3].as_slice());
        match (x, y, z) {
            (Some(a), Some(b), Some(c)) => {
                self.normals.push((a, b, c));
                true
            },
            _ => false,
        }
    }

    /// Parse an `f a//n b//n c//n ...` line into the face list.
    pub fn parse_face(&mut self, line: &[u8]) -> (ok: bool)
        ensures
            face_post(line@, ok, faces_view(*old(self)), faces_view(*final(self))),
            final(self).vertices@ == old(self).vertices@,
            final(self).normals@ == old(self).normals@,
    {
        let toks = split_tokens(line);
        if toks.len() == 0 {
            return false;
        }
        let ghost ts = tokens(line@);
        let mut face: Vec<(usize, usize)> = Vec::new();
        let mut idx: usize = 1;
        while idx < toks.len()
            invariant
                1 <= idx <= toks@.len(),
                toks@.map_values(|t: Vec<u8>| t@) == ts,
                ts == tokens(line@),
                forall|k: int| 1 <= k < idx ==> (#[trigger] token_val(ts[k])) is Some,
                face@.len() == idx - 1,
                forall|k: int|
                    0 <= k < idx - 1 ==> (#[trigger] face@[k]).0 as int == token_val(
                        ts[k + 1],
                    ).unwrap().0 && face@[k].1 as int == token_val(ts[k + 1]).unwrap().1,
            decreases toks@.len() - idx,
        {
            match parse_face_token(toks[idx].as_slice()) {
                Some(p) => {
                    face.push(p);
                },
                None => {
                    proof {
                        assert(ts[idx as int] == toks@[idx as int]@);
                        assert(!((token_val(ts[idx as int])) is Some));
                    }
                    return false;
                },
            }
            idx = idx + 1;
        }
        proof {
            assert(face@ =~= face_of_tokens(ts));
            assert(faces_view(*self).push(face@) =~= self.faces@.push(face).map_values(
                |f: Vec<(usize, usize)>| f@,
            ));
        }
        self.faces.push(face);
        true
    }

    /// Dispatch one line of the model text on its prefix; lines with any
    /// other prefix are ignored.
    pub fn parse_line(&mut self, line: &[u8]) -> (ok: bool)
        ensures
            starts_v(line@) ==> coords_post(line@, ok, old(self).vertices@, final(self).vertices@)
                && final(self).normals@ == old(self).normals@ && faces_view(*final(self))
                == faces_view(*old(self)),
            starts_vn(line@) ==> coords_post(line@, ok, old(self).normals@, final(self).normals@)
                && final(self).vertices@ == old(self).vertices@ && faces_view(*final(self))
                == faces_view(*old(self)),
            starts_f(line@) ==> face_post(line@, ok, faces_view(*old(self)), faces_view(*final(self)))
                && final(self).vertices@ == old(self).vertices@ && final(self).normals@
                == old(self).normals@,
            !(starts_v(line@) || starts_vn(line@) || starts_f(line@)) ==> ok && final(self).vertices@
                == old(self).vertices@ && final(self).normals@ == old(self).normals@
                && faces_view(*final(self)) == faces_view(*old(self)),
    {
        if line.len() >= 2 && line[0] == 118 && line[1] == 32 {
            self.parse_vertex(line)
        } else if line.len() >= 3 && line[0] == 118 && line[1] == 110 && line[2] == 32 {
            self.parse_normal(line)
        } else if line.len() >= 2 && line[0] == 102 && line[1] == 32 {
            self.parse_face(line)
        } else {
            true
        }
    }
}

} // verus!
