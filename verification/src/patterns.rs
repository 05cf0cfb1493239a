//! The line grammars of the rewrite engine: coordinate travel moves, Z-axis
//! moves, first-layer height comments, and embedded override comments.

use vstd::prelude::*;
use crate::text::{
    digits_val, is_digit, is_space, skip_digits, skip_digits_from, skip_numdot, skip_numdot_from,
    skip_ws, skip_ws_from, lemma_skip_digits_bounds, parse_u64,
};
use crate::markers::{feature_from_name, lookup_feature};
use crate::types::{AccelerationControl, FeatureType};

verus! {

/// `p` occurs in `s` at position `i`.
pub open spec fn lit_at(s: Seq<char>, i: int, p: Seq<char>) -> bool {
    0 <= i && i + p.len() <= s.len() && s.subrange(i, i + p.len()) == p
}

/// Executable [`lit_at`] against a literal.
pub fn match_lit_at(v: &Vec<char>, i: usize, p: &str) -> (r: bool)
    requires
        i <= v@.len(),
    ensures
        r == lit_at(v@, i as int, p@),
{
    let plen = p.unicode_len();
    let vlen = v.len();
    if plen > vlen - i {
        return false;
    }
    let mut k: usize = 0;
    while k < plen
        invariant
            0 <= k <= plen,
            plen == p@.len(),
            vlen == v@.len(),
            i + plen <= vlen,
            forall|j: int| 0 <= j < k ==> v@[i + j] == p@[j],
        decreases plen - k,
    {
        if v[i + k] != p.get_char(k) {
            assert(v@[i + k] != p@[k as int]);
            assert(!lit_at(v@, i as int, p@)) by {
                if lit_at(v@, i as int, p@) {
                    assert(v@.subrange(i as int, i + plen)[k as int] == p@[k as int]);
                }
            }
            return false;
        }
        k = k + 1;
    }
    assert(v@.subrange(i as int, i + plen) =~= p@);
    true
}

pub open spec fn is_g(c: char) -> bool {
    c == 'G' || c == 'g'
}

pub open spec fn is_x(c: char) -> bool {
    c == 'X' || c == 'x'
}

pub open spec fn is_y(c: char) -> bool {
    c == 'Y' || c == 'y'
}

pub open spec fn is_f(c: char) -> bool {
    c == 'F' || c == 'f'
}

pub open spec fn is_z(c: char) -> bool {
    c == 'Z' || c == 'z'
}

/// What may follow the Y coordinate of a travel move: an optional feed-rate
/// word set off by whitespace, then optional whitespace, then a comment or
/// the end of the line.
pub open spec fn travel_tail(s: Seq<char>, m: int) -> bool {
    let p = skip_ws(s, m);
    if p > m && p < s.len() && is_f(s[p]) {
        let q = skip_numdot(s, p + 1);
        q > p + 1 && {
            let r = skip_ws(s, q);
            r == s.len() || s[r] == ';'
        }
    } else {
        p == s.len() || s[p] == ';'
    }
}

/// A travel move: a `G1` word, an X coordinate and a Y coordinate (digits
/// and dots), an optional feed rate, then nothing but whitespace and an
/// optional comment.  Letters are matched in either case, and the line is
/// taken as written, without trimming.
pub open spec fn is_travel_move(s: Seq<char>) -> bool {
    s.len() >= 2 && is_g(s[0]) && s[1] == '1' && {
        let i = skip_ws(s, 2);
        i > 2 && i < s.len() && is_x(s[i]) && {
            let j = skip_numdot(s, i + 1);
            j > i + 1 && {
                let k = skip_ws(s, j);
                k > j && k < s.len() && is_y(s[k]) && {
                    let m = skip_numdot(s, k + 1);
                    m > k + 1 && travel_tail(s, m)
                }
            }
        }
    }
}

/// Executable [`is_travel_move`].
pub fn travel_move(v: &Vec<char>) -> (r: bool)
    ensures
        r == is_travel_move(v@),
{
    if v.len() < 2 {
        return false;
    }
    let c0 = v[0];
    let c1 = v[1];
    if !(c0 == 'G' || c0 == 'g') || c1 != '1' {
        return false;
    }
    let i = skip_ws_from(v, 2);
    if !(i > 2 && i < v.len() && (v[i] == 'X' || v[i] == 'x')) {
        return false;
    }
    let j = skip_numdot_from(v, i + 1);
    if !(j > i + 1) {
        return false;
    }
    let k = skip_ws_from(v, j);
    if !(k > j && k < v.len() && (v[k] == 'Y' || v[k] == 'y')) {
        return false;
    }
    let m = skip_numdot_from(v, k + 1);
    if !(m > k + 1) {
        return false;
    }
    let p = skip_ws_from(v, m);
    if p > m && p < v.len() && (v[p] == 'F' || v[p] == 'f') {
        let q = skip_numdot_from(v, p + 1);
        if !(q > p + 1) {
            return false;
        }
        let r = skip_ws_from(v, q);
        r == v.len() || v[r] == ';'
    } else {
        p == v.len() || v[p] == ';'
    }
}

/// A Z-axis move: a `G1` word whose first coordinate word is Z, in either
/// case.
pub open spec fn is_z_move(s: Seq<char>) -> bool {
    s.len() >= 2 && is_g(s[0]) && s[1] == '1' && {
        let i = skip_ws(s, 2);
        i > 2 && i < s.len() && is_z(s[i])
    }
}

/// Executable [`is_z_move`].
pub fn z_move(v: &Vec<char>) -> (r: bool)
    ensures
        r == is_z_move(v@),
{
    if v.len() < 2 {
        return false;
    }
    let c0 = v[0];
    let c1 = v[1];
    if !(c0 == 'G' || c0 == 'g') || c1 != '1' {
        return false;
    }
    let i = skip_ws_from(v, 2);
    i > 2 && i < v.len() && (v[i] == 'Z' || v[i] == 'z')
}

/// Value of the first three fractional digits, zero-padded on the right.
pub open spec fn frac3_val(fr: Seq<char>) -> nat {
    if fr.len() >= 3 {
        digits_val(fr.subrange(0, 3))
    } else if fr.len() == 2 {
        digits_val(fr) * 10
    } else if fr.len() == 1 {
        digits_val(fr) * 100
    } else {
        0
    }
}

/// A millimeter value, `<digits>` or `<digits>.<digits>`, read to the end of
/// the line, in thousandths of a millimeter; `None` when the text has any
/// other shape or the value does not fit.
pub open spec fn mm_value_at(t: Seq<char>, k: int) -> Option<u32> {
    let d = skip_digits(t, k);
    if 0 <= k <= t.len() && d > k {
        let ip = digits_val(t.subrange(k, d));
        if d < t.len() && t[d] == '.' {
            let e = skip_digits(t, d + 1);
            if e == t.len() {
                let um = ip * 1000 + frac3_val(t.subrange(d + 1, e));
                if um <= u32::MAX {
                    Some(um as u32)
                } else {
                    None
                }
            } else {
                None
            }
        } else if d == t.len() {
            if ip * 1000 <= u32::MAX {
                Some((ip * 1000) as u32)
            } else {
                None
            }
        } else {
            None
        }
    } else {
        None
    }
}

/// Executable [`mm_value_at`].
pub fn parse_mm_value(v: &Vec<char>, k: usize) -> (r: Option<u32>)
    requires
        k <= v@.len(),
    ensures
        r == mm_value_at(v@, k as int),
{
    let d = skip_digits_from(v, k);
    if !(d > k) {
        return None;
    }
    proof {
        lemma_skip_digits_bounds(v@, k as int);
    }
    let ip = match parse_u64(v, k, d) {
        Some(x) => x,
        None => {
            proof {
                // a value past u64::MAX certainly scales past u32::MAX
                assert(digits_val(v@.subrange(k as int, d as int)) * 1000 > u32::MAX)
                    by (nonlinear_arith)
                    requires
                        digits_val(v@.subrange(k as int, d as int)) > u64::MAX,
                {}
            }
            return None;
        },
    };
    if d < v.len() && v[d] == '.' {
        let e = skip_digits_from(v, d + 1);
        if e != v.len() {
            return None;
        }
        proof {
            lemma_skip_digits_bounds(v@, d as int + 1);
        }
        let fr_len = e - (d + 1);
        let fr_end = if fr_len >= 3 {
            d + 1 + 3
        } else {
            e
        };
        proof {
            lemma_digits_val_bound(v@.subrange(d as int + 1, fr_end as int));
        }
        let fr = match parse_u64(v, d + 1, fr_end) {
            Some(x) => x,
            None => {
                // unreachable: at most three digits always fit
                return None;
            },
        };
        let frac: u64 = if fr_len >= 3 {
            fr
        } else if fr_len == 2 {
            fr * 10
        } else if fr_len == 1 {
            fr * 100
        } else {
            0
        };
        proof {
            let whole = v@.subrange(d as int + 1, v@.len() as int);
            if fr_len >= 3 {
                assert(whole.subrange(0, 3) =~= v@.subrange(d as int + 1, fr_end as int));
            } else {
                assert(whole =~= v@.subrange(d as int + 1, fr_end as int));
            }
            assert(frac == frac3_val(whole));
        }
        if ip > (u32::MAX as u64) {
            proof {
                assert(ip * 1000 + frac > u32::MAX) by (nonlinear_arith)
                    requires
                        ip > u32::MAX,
                        frac >= 0,
                {}
            }
            return None;
        }
        let um: u64 = ip * 1000 + frac;
        if um > u32::MAX as u64 {
            None
        } else {
            Some(um as u32)
        }
    } else if d == v.len() {
        if ip > (u32::MAX as u64) {
            proof {
                assert(ip * 1000 > u32::MAX) by (nonlinear_arith)
                    requires
                        ip > u32::MAX,
                {}
            }
            return None;
        }
        let um: u64 = ip * 1000;
        if um > u32::MAX as u64 {
            None
        } else {
            Some(um as u32)
        }
    } else {
        None
    }
}

/// A run of at most three digits has value below one thousand.
pub proof fn lemma_digits_val_bound(s: Seq<char>)
    requires
        s.len() <= 3,
        forall|j: int| 0 <= j < s.len() ==> is_digit(s[j]),
    ensures
        s.len() == 0 ==> digits_val(s) == 0,
        s.len() == 1 ==> digits_val(s) <= 9,
        s.len() == 2 ==> digits_val(s) <= 99,
        s.len() == 3 ==> digits_val(s) <= 999,
    decreases s.len(),
{
    if s.len() > 0 {
        lemma_digits_val_bound(s.drop_last());
        assert(is_digit(s.last()));
        assert(crate::text::digit_of(s.last()) <= 9);
        assert(digits_val(s) == digits_val(s.drop_last()) * 10 + crate::text::digit_of(s.last()));
    }
}

/// The height a `; HEIGHT:` comment states, in thousandths of a millimeter,
/// if the trimmed line `t` is such a comment with a readable value.
pub open spec fn height_comment_value(t: Seq<char>) -> Option<u32> {
    if t.len() > 0 && t[0] == ';' {
        let i = skip_ws(t, 1);
        if lit_at(t, i, "HEIGHT"@) {
            let j = skip_ws(t, i + "HEIGHT"@.len());
            if j < t.len() && t[j] == ':' {
                mm_value_at(t, skip_ws(t, j + 1))
            } else {
                None
            }
        } else {
            None
        }
    } else {
        None
    }
}

/// Executable [`height_comment_value`].
pub fn height_comment(t: &Vec<char>) -> (r: Option<u32>)
    ensures
        r == height_comment_value(t@),
{
    if t.len() == 0 || t[0] != ';' {
        return None;
    }
    let i = skip_ws_from(t, 1);
    if !match_lit_at(t, i, "HEIGHT") {
        return None;
    }
    let hlen = "HEIGHT".unicode_len();
    assert(i + hlen <= t@.len());
    let j = skip_ws_from(t, i + hlen);
    if !(j < t.len() && t[j] == ':') {
        return None;
    }
    let k = skip_ws_from(t, j + 1);
    parse_mm_value(t, k)
}

/// What scanning a trimmed line for an embedded override comment yields.
#[derive(Copy, Clone, PartialEq, Eq, Structural, Debug)]
pub enum OverrideScan {
    /// The line is not an override comment.
    NotOverride,
    /// An override comment whose numeric field does not fit.
    BadValue,
    /// An override comment naming a feature outside the taxonomy.
    BadFeature,
    /// A well-formed override comment.
    Found(FeatureType, AccelerationControl),
}

/// Values of an override comment once its shape has matched: the three
/// numeric fields, then the feature name running to the end of the line.
pub open spec fn override_values(t: Seq<char>, k1: int) -> OverrideScan {
    let d1 = skip_digits(t, k1);
    let n1 = digits_val(t.subrange(k1, d1));
    let s1 = skip_ws(t, d1);
    let k2 = skip_ws(t, s1 + 1);
    let d2 = skip_digits(t, k2);
    let n2 = digits_val(t.subrange(k2, d2));
    let s2 = skip_ws(t, d2);
    let k3 = skip_ws(t, s2 + 1);
    let d3 = skip_digits(t, k3);
    let n3 = digits_val(t.subrange(k3, d3));
    let w = skip_ws(t, d3);
    let w2 = skip_ws(t, w + "for"@.len());
    let name = t.subrange(w2, t.len() as int);
    if !(d1 > k1 && s1 < t.len() && (t[s1] == '/' || t[s1] == '\\')) {
        OverrideScan::NotOverride
    } else if !(d2 > k2 && s2 < t.len() && (t[s2] == '/' || t[s2] == '\\')) {
        OverrideScan::NotOverride
    } else if !(d3 > k3 && w > d3 && lit_at(t, w, "for"@) && w2 > w + "for"@.len() && w2
        < t.len()) {
        OverrideScan::NotOverride
    } else if n1 > u64::MAX || n2 > u64::MAX || n3 > u64::MAX {
        OverrideScan::BadValue
    } else {
        match feature_from_name(name) {
            Some(f) => OverrideScan::Found(
                f,
                AccelerationControl {
                    accel: n1 as u64,
                    accel_to_decel: n2 as u64,
                    scv: n3 as u64,
                },
            ),
            None => OverrideScan::BadFeature,
        }
    }
}

/// Scan the trimmed line `t` for an embedded override comment,
/// `; ACCEL: <accel>/<accel_to_decel>/<scv> for <feature-name>`, where the
/// separator may also be a backslash and whitespace around tokens is free.
pub open spec fn scan_override(t: Seq<char>) -> OverrideScan {
    if t.len() > 0 && t[0] == ';' {
        let i = skip_ws(t, 1);
        if lit_at(t, i, "ACCEL"@) {
            let j = skip_ws(t, i + "ACCEL"@.len());
            if j < t.len() && t[j] == ':' {
                override_values(t, skip_ws(t, j + 1))
            } else {
                OverrideScan::NotOverride
            }
        } else {
            OverrideScan::NotOverride
        }
    } else {
        OverrideScan::NotOverride
    }
}

/// Executable [`scan_override`].
pub fn override_scan(t: &Vec<char>) -> (r: OverrideScan)
    ensures
        r == scan_override(t@),
{
    if t.len() == 0 || t[0] != ';' {
        return OverrideScan::NotOverride;
    }
    let i = skip_ws_from(t, 1);
    if !match_lit_at(t, i, "ACCEL") {
        return OverrideScan::NotOverride;
    }
    let alen = "ACCEL".unicode_len();
    assert(i + alen <= t@.len());
    let j = skip_ws_from(t, i + alen);
    if !(j < t.len() && t[j] == ':') {
        return OverrideScan::NotOverride;
    }
    let k1 = skip_ws_from(t, j + 1);

    let d1 = skip_digits_from(t, k1);
    let s1 = skip_ws_from(t, d1);
    if !(d1 > k1 && s1 < t.len() && (t[s1] == '/' || t[s1] == '\\')) {
        return OverrideScan::NotOverride;
    }
    let k2 = skip_ws_from(t, s1 + 1);
    let d2 = skip_digits_from(t, k2);
    let s2 = skip_ws_from(t, d2);
    if !(d2 > k2 && s2 < t.len() && (t[s2] == '/' || t[s2] == '\\')) {
        return OverrideScan::NotOverride;
    }
    let k3 = skip_ws_from(t, s2 + 1);
    let d3 = skip_digits_from(t, k3);
    let w = skip_ws_from(t, d3);
    if !(d3 > k3 && w > d3 && match_lit_at(t, w, "for")) {
        return OverrideScan::NotOverride;
    }
    let flen = "for".unicode_len();
    assert(w + flen <= t@.len());
    let w2 = skip_ws_from(t, w + flen);
    if !(w2 > w + flen && w2 < t.len()) {
        return OverrideScan::NotOverride;
    }
    proof {
        lemma_skip_digits_bounds(t@, k1 as int);
        lemma_skip_digits_bounds(t@, k2 as int);
        lemma_skip_digits_bounds(t@, k3 as int);
    }
    let n1 = parse_u64(t, k1, d1);
    let n2 = parse_u64(t, k2, d2);
    let n3 = parse_u64(t, k3, d3);
    let (v1, v2, v3) = match (n1, n2, n3) {
        (Some(a), Some(b), Some(c)) => (a, b, c),
        _ => {
            return OverrideScan::BadValue;
        },
    };
    let mut name: Vec<char> = Vec::new();
    let mut p = w2;
    while p < t.len()
        invariant
            w2 <= p <= t@.len(),
            name@ =~= t@.subrange(w2 as int, p as int),
        decreases t@.len() - p,
    {
        name.push(t[p]);
        p = p + 1;
    }
    assert(name@ =~= t@.subrange(w2 as int, t@.len() as int));
    match lookup_feature(&name) {
        Some(f) => OverrideScan::Found(
            f,
            AccelerationControl { accel: v1, accel_to_decel: v2, scv: v3 },
        ),
        None => OverrideScan::BadFeature,
    }
}

} // verus!
