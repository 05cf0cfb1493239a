//! Character-level utilities shared by the line grammars and the emitters:
//! whitespace trimming, prefix tests, case-insensitive comparison, and
//! decimal conversion in both directions.

use vstd::prelude::*;

verus! {

/// The ASCII whitespace characters; every place the rewriter skips or trims
/// whitespace uses this class.
pub open spec fn is_space(c: char) -> bool {
    c == ' ' || c == '\t' || c == '\n' || c == '\r' || c == '\u{b}' || c == '\u{c}'
}

/// Executable test for [`is_space`].
pub fn is_space_char(c: char) -> (r: bool)
    ensures
        r == is_space(c),
{
    c == ' ' || c == '\t' || c == '\n' || c == '\r' || c == '\u{b}' || c == '\u{c}'
}

/// Decimal digit.
pub open spec fn is_digit(c: char) -> bool {
    '0' <= c && c <= '9'
}

/// Executable test for [`is_digit`].
pub fn is_digit_char(c: char) -> (r: bool)
    ensures
        r == is_digit(c),
{
    '0' <= c && c <= '9'
}

/// Digit or dot: the character class of coordinate values in move lines.
pub open spec fn is_numdot(c: char) -> bool {
    is_digit(c) || c == '.'
}

/// Executable test for [`is_numdot`].
pub fn is_numdot_char(c: char) -> (r: bool)
    ensures
        r == is_numdot(c),
{
    is_digit_char(c) || c == '.'
}

/// Code point of a character with ASCII upper case folded to lower case.
pub open spec fn lower_code(c: char) -> u32 {
    if 'A' <= c && c <= 'Z' {
        ((c as u32) + 32) as u32
    } else {
        c as u32
    }
}

/// Executable [`lower_code`].
pub fn lower_code_of(c: char) -> (r: u32)
    ensures
        r == lower_code(c),
{
    if 'A' <= c && c <= 'Z' {
        (c as u32) + 32
    } else {
        c as u32
    }
}

/// ASCII-case-insensitive equality of two character sequences.
pub open spec fn eq_ci(a: Seq<char>, b: Seq<char>) -> bool {
    a.len() == b.len() && (forall|i: int| 0 <= i < a.len() ==> lower_code(a[i]) == lower_code(b[i]))
}

/// `s` begins with `p`.
pub open spec fn starts_with(s: Seq<char>, p: Seq<char>) -> bool {
    p.len() <= s.len() && s.subrange(0, p.len() as int) == p
}

/// The sequence with leading whitespace removed.
pub open spec fn trim_start(s: Seq<char>) -> Seq<char>
    decreases s.len(),
{
    if s.len() > 0 && is_space(s[0]) {
        trim_start(s.drop_first())
    } else {
        s
    }
}

/// The sequence with trailing whitespace removed.
pub open spec fn trim_end(s: Seq<char>) -> Seq<char>
    decreases s.len(),
{
    if s.len() > 0 && is_space(s[s.len() - 1]) {
        trim_end(s.drop_last())
    } else {
        s
    }
}

/// The sequence with whitespace removed at both ends.
pub open spec fn trimmed(s: Seq<char>) -> Seq<char> {
    trim_end(trim_start(s))
}

/// Index of the first non-whitespace character at or after `i`, or the length
/// of `s` if the rest is whitespace.
pub open spec fn skip_ws(s: Seq<char>, i: int) -> int
    decreases s.len() - i,
{
    if 0 <= i < s.len() && is_space(s[i]) {
        skip_ws(s, i + 1)
    } else {
        i
    }
}

/// Index of the first character at or after `i` outside the digit-or-dot
/// class, or the length of `s`.
pub open spec fn skip_numdot(s: Seq<char>, i: int) -> int
    decreases s.len() - i,
{
    if 0 <= i < s.len() && is_numdot(s[i]) {
        skip_numdot(s, i + 1)
    } else {
        i
    }
}

/// Index of the first non-digit character at or after `i`, or the length of
/// `s`.
pub open spec fn skip_digits(s: Seq<char>, i: int) -> int
    decreases s.len() - i,
{
    if 0 <= i < s.len() && is_digit(s[i]) {
        skip_digits(s, i + 1)
    } else {
        i
    }
}

pub proof fn lemma_skip_ws_bounds(s: Seq<char>, i: int)
    requires
        0 <= i <= s.len(),
    ensures
        i <= skip_ws(s, i) <= s.len(),
        forall|j: int| i <= j < skip_ws(s, i) ==> is_space(s[j]),
        skip_ws(s, i) < s.len() ==> !is_space(s[skip_ws(s, i)]),
    decreases s.len() - i,
{
    if i < s.len() && is_space(s[i]) {
        lemma_skip_ws_bounds(s, i + 1);
    }
}

pub proof fn lemma_skip_numdot_bounds(s: Seq<char>, i: int)
    requires
        0 <= i <= s.len(),
    ensures
        i <= skip_numdot(s, i) <= s.len(),
        forall|j: int| i <= j < skip_numdot(s, i) ==> is_numdot(s[j]),
        skip_numdot(s, i) < s.len() ==> !is_numdot(s[skip_numdot(s, i)]),
    decreases s.len() - i,
{
    if i < s.len() && is_numdot(s[i]) {
        lemma_skip_numdot_bounds(s, i + 1);
    }
}

pub proof fn lemma_skip_digits_bounds(s: Seq<char>, i: int)
    requires
        0 <= i <= s.len(),
    ensures
        i <= skip_digits(s, i) <= s.len(),
        forall|j: int| i <= j < skip_digits(s, i) ==> is_digit(s[j]),
        skip_digits(s, i) < s.len() ==> !is_digit(s[skip_digits(s, i)]),
    decreases s.len() - i,
{
    if i < s.len() && is_digit(s[i]) {
        lemma_skip_digits_bounds(s, i + 1);
    }
}

/// Executable [`skip_ws`].
pub fn skip_ws_from(v: &Vec<char>, from: usize) -> (r: usize)
    requires
        from <= v@.len(),
    ensures
        r as int == skip_ws(v@, from as int),
        from <= r <= v@.len(),
{
    let mut i = from;
    while i < v.len() && is_space_char(v[i])
        invariant
            from <= i <= v@.len(),
            skip_ws(v@, from as int) == skip_ws(v@, i as int),
        decreases v@.len() - i,
    {
        i = i + 1;
    }
    proof {
        lemma_skip_ws_bounds(v@, i as int);
    }
    i
}

/// Executable [`skip_numdot`].
pub fn skip_numdot_from(v: &Vec<char>, from: usize) -> (r: usize)
    requires
        from <= v@.len(),
    ensures
        r as int == skip_numdot(v@, from as int),
        from <= r <= v@.len(),
{
    let mut i = from;
    while i < v.len() && is_numdot_char(v[i])
        invariant
            from <= i <= v@.len(),
            skip_numdot(v@, from as int) == skip_numdot(v@, i as int),
        decreases v@.len() - i,
    {
        i = i + 1;
    }
    proof {
        lemma_skip_numdot_bounds(v@, i as int);
    }
    i
}

/// Executable [`skip_digits`].
pub fn skip_digits_from(v: &Vec<char>, from: usize) -> (r: usize)
    requires
        from <= v@.len(),
    ensures
        r as int == skip_digits(v@, from as int),
        from <= r <= v@.len(),
{
    let mut i = from;
    while i < v.len() && is_digit_char(v[i])
        invariant
            from <= i <= v@.len(),
            skip_digits(v@, from as int) == skip_digits(v@, i as int),
        decreases v@.len() - i,
    {
        i = i + 1;
    }
    proof {
        lemma_skip_digits_bounds(v@, i as int);
    }
    i
}

proof fn lemma_trim_start_skip(s: Seq<char>, i: int)
    requires
        0 <= i <= s.len(),
        forall|j: int| 0 <= j < i ==> is_space(s[j]),
    ensures
        trim_start(s) == trim_start(s.subrange(i, s.len() as int)),
    decreases i,
{
    if i == 0 {
        assert(s.subrange(0, s.len() as int) =~= s);
    } else {
        let tail = s.drop_first();
        assert(trim_start(s) == trim_start(tail));
        lemma_trim_start_skip(tail, i - 1);
        assert(tail.subrange(i - 1, tail.len() as int) =~= s.subrange(i, s.len() as int));
    }
}

proof fn lemma_trim_start_nonspace(s: Seq<char>, i: int)
    requires
        0 <= i <= s.len(),
        forall|j: int| 0 <= j < i ==> is_space(s[j]),
        i < s.len() ==> !is_space(s[i]),
        i == s.len() || !is_space(s[i]),
    ensures
        trim_start(s) == s.subrange(i, s.len() as int),
{
    lemma_trim_start_skip(s, i);
}

proof fn lemma_trim_end_skip(s: Seq<char>, i: int)
    requires
        0 <= i <= s.len(),
        forall|j: int| i <= j < s.len() ==> is_space(s[j]),
    ensures
        trim_end(s) == trim_end(s.subrange(0, i)),
    decreases s.len() - i,
{
    if i == s.len() {
        assert(s.subrange(0, s.len() as int) =~= s);
    } else {
        let head = s.drop_last();
        assert(is_space(s[s.len() - 1]));
        assert(trim_end(s) == trim_end(head));
        lemma_trim_end_skip(head, i);
        assert(head.subrange(0, i) =~= s.subrange(0, i));
    }
}

proof fn lemma_trim_end_nonspace(s: Seq<char>, i: int)
    requires
        0 <= i <= s.len(),
        forall|j: int| i <= j < s.len() ==> is_space(s[j]),
        i > 0 ==> !is_space(s[i - 1]),
    ensures
        trim_end(s) == s.subrange(0, i),
{
    lemma_trim_end_skip(s, i);
    let t = s.subrange(0, i);
    if t.len() > 0 {
        assert(!is_space(t[t.len() - 1]));
    }
}

proof fn lemma_trim_end_is_prefix(s: Seq<char>)
    ensures
        trim_end(s).len() <= s.len(),
        trim_end(s) == s.subrange(0, trim_end(s).len() as int),
    decreases s.len(),
{
    if s.len() > 0 && is_space(s[s.len() - 1]) {
        lemma_trim_end_is_prefix(s.drop_last());
        assert(s.drop_last().subrange(0, trim_end(s).len() as int) =~= s.subrange(
            0,
            trim_end(s).len() as int,
        ));
    } else {
        assert(s.subrange(0, s.len() as int) =~= s);
    }
}

proof fn lemma_trim_end_keeps_nonspace(s: Seq<char>, j: int)
    requires
        0 <= j < s.len(),
        !is_space(s[j]),
    ensures
        trim_end(s).len() > j,
    decreases s.len(),
{
    if s.len() > 0 && is_space(s[s.len() - 1]) {
        lemma_trim_end_keeps_nonspace(s.drop_last(), j);
    }
}

/// A prefix free of whitespace at its two ends survives trimming.
pub proof fn lemma_trimmed_keeps_prefix(s: Seq<char>, p: Seq<char>)
    requires
        starts_with(s, p),
        p.len() > 0,
        !is_space(p[0]),
        !is_space(p[p.len() - 1]),
    ensures
        starts_with(trimmed(s), p),
{
    assert(s[0] == s.subrange(0, p.len() as int)[0]);
    assert(!is_space(s[0]));
    assert(trim_start(s) == s);
    lemma_trim_end_is_prefix(s);
    assert(s[p.len() - 1] == s.subrange(0, p.len() as int)[p.len() - 1]);
    lemma_trim_end_keeps_nonspace(s, p.len() - 1);
    let t = trim_end(s);
    assert(t.subrange(0, p.len() as int) =~= s.subrange(0, p.len() as int));
}

/// A fresh copy of `v` with whitespace removed at both ends.
pub fn trim(v: &Vec<char>) -> (r: Vec<char>)
    ensures
        r@ == trimmed(v@),
{
    let n = v.len();
    let mut lo: usize = 0;
    while lo < n && is_space_char(v[lo])
        invariant
            0 <= lo <= n,
            n == v@.len(),
            forall|j: int| 0 <= j < lo ==> is_space(v@[j]),
        decreases n - lo,
    {
        lo = lo + 1;
    }
    let mut hi: usize = n;
    while hi > lo && is_space_char(v[hi - 1])
        invariant
            lo <= hi <= n,
            n == v@.len(),
            forall|j: int| hi <= j < n ==> is_space(v@[j]),
        decreases hi,
    {
        hi = hi - 1;
    }
    let mut r: Vec<char> = Vec::new();
    let mut k = lo;
    while k < hi
        invariant
            lo <= k <= hi <= n,
            n == v@.len(),
            r@ =~= v@.subrange(lo as int, k as int),
        decreases hi - k,
    {
        r.push(v[k]);
        k = k + 1;
    }
    proof {
        if lo == n {
            // the whole line is whitespace
            lemma_trim_start_nonspace(v@, n as int);
            assert(trim_start(v@) =~= Seq::<char>::empty());
            assert(trimmed(v@) =~= Seq::<char>::empty());
            assert(r@ =~= Seq::<char>::empty());
        } else {
            lemma_trim_start_nonspace(v@, lo as int);
            let t = v@.subrange(lo as int, n as int);
            assert(hi > lo);
            assert(forall|j: int| hi - lo <= j < t.len() ==> is_space(t[j]));
            assert(!is_space(t[hi - lo - 1]));
            lemma_trim_end_nonspace(t, hi - lo);
            assert(t.subrange(0, hi - lo) =~= v@.subrange(lo as int, hi as int));
        }
    }
    r
}

/// Executable [`starts_with`] against a literal prefix.
pub fn starts_with_lit(v: &Vec<char>, p: &str) -> (r: bool)
    ensures
        r == starts_with(v@, p@),
{
    let plen = p.unicode_len();
    if plen > v.len() {
        return false;
    }
    let mut i: usize = 0;
    while i < plen
        invariant
            0 <= i <= plen,
            plen == p@.len(),
            plen <= v@.len(),
            forall|j: int| 0 <= j < i ==> v@[j] == p@[j],
        decreases plen - i,
    {
        if v[i] != p.get_char(i) {
            assert(v@[i as int] != p@[i as int]);
            assert(!starts_with(v@, p@)) by {
                if starts_with(v@, p@) {
                    assert(v@.subrange(0, plen as int)[i as int] == p@[i as int]);
                }
            }
            return false;
        }
        i = i + 1;
    }
    assert(v@.subrange(0, plen as int) =~= p@);
    true
}

/// Equality of two character vectors.
pub fn eq_chars(a: &Vec<char>, b: &Vec<char>) -> (r: bool)
    ensures
        r == (a@ == b@),
{
    if a.len() != b.len() {
        assert(a@ != b@);
        return false;
    }
    let mut i: usize = 0;
    while i < a.len()
        invariant
            0 <= i <= a@.len(),
            a@.len() == b@.len(),
            forall|j: int| 0 <= j < i ==> a@[j] == b@[j],
        decreases a@.len() - i,
    {
        if a[i] != b[i] {
            assert(a@ != b@);
            return false;
        }
        i = i + 1;
    }
    assert(a@ =~= b@);
    true
}

/// Case-insensitive equality of a character vector against a literal.
pub fn eq_ci_lit(v: &Vec<char>, p: &str) -> (r: bool)
    ensures
        r == eq_ci(v@, p@),
{
    let plen = p.unicode_len();
    if plen != v.len() {
        return false;
    }
    let mut i: usize = 0;
    while i < plen
        invariant
            0 <= i <= plen,
            plen == p@.len(),
            plen == v@.len(),
            forall|j: int| 0 <= j < i ==> lower_code(v@[j]) == lower_code(p@[j]),
        decreases plen - i,
    {
        if lower_code_of(v[i]) != lower_code_of(p.get_char(i)) {
            return false;
        }
        i = i + 1;
    }
    true
}

/// The characters of a literal as a vector.
pub fn str_to_chars(s: &str) -> (r: Vec<char>)
    ensures
        r@ == s@,
{
    let n = s.unicode_len();
    let mut r: Vec<char> = Vec::new();
    let mut i: usize = 0;
    while i < n
        invariant
            0 <= i <= n,
            n == s@.len(),
            r@ =~= s@.subrange(0, i as int),
        decreases n - i,
    {
        r.push(s.get_char(i));
        i = i + 1;
    }
    assert(r@ =~= s@);
    r
}

/// Append the characters of a literal to `dst`.
pub fn push_str(dst: &mut Vec<char>, s: &str)
    ensures
        final(dst)@ == old(dst)@ + s@,
{
    let n = s.unicode_len();
    let mut i: usize = 0;
    while i < n
        invariant
            0 <= i <= n,
            n == s@.len(),
            dst@ =~= old(dst)@ + s@.subrange(0, i as int),
        decreases n - i,
    {
        dst.push(s.get_char(i));
        i = i + 1;
    }
    assert(dst@ =~= old(dst)@ + s@);
}

/// Append a copy of `src` to `dst`.
pub fn push_chars(dst: &mut Vec<char>, src: &Vec<char>)
    ensures
        final(dst)@ == old(dst)@ + src@,
{
    let n = src.len();
    let mut i: usize = 0;
    while i < n
        invariant
            0 <= i <= n,
            n == src@.len(),
            dst@ =~= old(dst)@ + src@.subrange(0, i as int),
        decreases n - i,
    {
        dst.push(src[i]);
        i = i + 1;
    }
    assert(dst@ =~= old(dst)@ + src@);
}

/// The views of a sequence of character vectors.
pub open spec fn views_of(s: Seq<Vec<char>>) -> Seq<Seq<char>> {
    Seq::new(s.len(), |i: int| s[i]@)
}

pub proof fn lemma_views_of_push(s: Seq<Vec<char>>, v: Vec<char>)
    ensures
        views_of(s.push(v)) == views_of(s).push(v@),
{
    assert(views_of(s.push(v)) =~= views_of(s).push(v@));
}

pub proof fn lemma_views_of_add(a: Seq<Vec<char>>, b: Seq<Vec<char>>)
    ensures
        views_of(a + b) == views_of(a) + views_of(b),
{
    assert(views_of(a + b) =~= views_of(a) + views_of(b));
}

/// Numeric value of a digit character.
pub open spec fn digit_of(c: char) -> nat {
    ((c as u32) - ('0' as u32)) as nat
}

/// Value of a sequence of decimal digits, most significant first.
pub open spec fn digits_val(s: Seq<char>) -> nat
    decreases s.len(),
{
    if s.len() == 0 {
        0
    } else {
        digits_val(s.drop_last()) * 10 + digit_of(s.last())
    }
}

proof fn lemma_digits_val_push(s: Seq<char>, c: char)
    ensures
        digits_val(s.push(c)) == digits_val(s) * 10 + digit_of(c),
{
    assert(s.push(c).drop_last() =~= s);
    assert(s.push(c).last() == c);
}

/// Extending a digit string never lowers its value.
proof fn lemma_digits_val_prefix_le(s: Seq<char>, i: int)
    requires
        0 <= i <= s.len(),
    ensures
        digits_val(s.subrange(0, i)) <= digits_val(s),
    decreases s.len() - i,
{
    if i < s.len() {
        let p = s.subrange(0, i);
        let q = s.subrange(0, i + 1);
        assert(q.drop_last() =~= p);
        assert(digits_val(q) == digits_val(p) * 10 + digit_of(q.last()));
        assert(digits_val(p) <= digits_val(q)) by (nonlinear_arith)
            requires
                digits_val(q) == digits_val(p) * 10 + digit_of(q.last()),
        {}
        lemma_digits_val_prefix_le(s, i + 1);
    } else {
        assert(s.subrange(0, i) =~= s);
    }
}

/// Value of the digit run `v[from..to]`, if it fits in a `u64`.
pub fn parse_u64(v: &Vec<char>, from: usize, to: usize) -> (r: Option<u64>)
    requires
        from <= to <= v@.len(),
        forall|j: int| from <= j < to ==> is_digit(v@[j]),
    ensures
        ({
            let val = digits_val(v@.subrange(from as int, to as int));
            match r {
                Some(x) => x == val,
                None => val > u64::MAX,
            }
        }),
{
    let mut acc: u64 = 0;
    let mut i = from;
    while i < to
        invariant
            from <= i <= to <= v@.len(),
            forall|j: int| from <= j < to ==> is_digit(v@[j]),
            acc == digits_val(v@.subrange(from as int, i as int)),
        decreases to - i,
    {
        let c = v[i];
        assert(is_digit(v@[i as int]));
        let d: u64 = ((c as u32) - 48) as u64;
        assert(d == digit_of(c)) by {
            assert('0' as u32 == 48);
        }
        let wide: u128 = (acc as u128) * 10 + (d as u128);
        proof {
            let p = v@.subrange(from as int, i as int);
            let q = v@.subrange(from as int, i as int + 1);
            assert(q.drop_last() =~= p);
            assert(digits_val(q) == digits_val(p) * 10 + digit_of(q.last()));
        }
        if wide > u64::MAX as u128 {
            proof {
                let s = v@.subrange(from as int, to as int);
                let q = v@.subrange(from as int, i as int + 1);
                assert(s.subrange(0, i as int + 1 - from) =~= q);
                lemma_digits_val_prefix_le(s, i as int + 1 - from);
            }
            return None;
        }
        acc = wide as u64;
        i = i + 1;
    }
    assert(v@.subrange(from as int, to as int) =~= v@.subrange(from as int, i as int));
    Some(acc)
}

/// Character of a decimal digit.
pub open spec fn digit_char(d: nat) -> char {
    if d == 0 {
        '0'
    } else if d == 1 {
        '1'
    } else if d == 2 {
        '2'
    } else if d == 3 {
        '3'
    } else if d == 4 {
        '4'
    } else if d == 5 {
        '5'
    } else if d == 6 {
        '6'
    } else if d == 7 {
        '7'
    } else if d == 8 {
        '8'
    } else {
        '9'
    }
}

/// Decimal text of a number, most significant digit first, no sign, no
/// leading zeros (a single `'0'` for zero).
pub open spec fn u64_dec(n: nat) -> Seq<char>
    decreases n,
{
    if n < 10 {
        seq![digit_char(n)]
    } else {
        u64_dec(n / 10) + seq![digit_char(n % 10)]
    }
}

fn digit_char_of(d: u64) -> (r: char)
    requires
        d < 10,
    ensures
        r == digit_char(d as nat),
{
    if d == 0 {
        '0'
    } else if d == 1 {
        '1'
    } else if d == 2 {
        '2'
    } else if d == 3 {
        '3'
    } else if d == 4 {
        '4'
    } else if d == 5 {
        '5'
    } else if d == 6 {
        '6'
    } else if d == 7 {
        '7'
    } else if d == 8 {
        '8'
    } else {
        '9'
    }
}

/// Append the decimal text of `n` to `dst`.
pub fn push_u64(dst: &mut Vec<char>, n: u64)
    ensures
        final(dst)@ == old(dst)@ + u64_dec(n as nat),
    decreases n,
{
    if n < 10 {
        dst.push(digit_char_of(n));
        assert(dst@ =~= old(dst)@ + u64_dec(n as nat));
    } else {
        push_u64(dst, n / 10);
        dst.push(digit_char_of(n % 10));
        assert(dst@ =~= old(dst)@ + u64_dec(n as nat));
    }
}

} // verus!
