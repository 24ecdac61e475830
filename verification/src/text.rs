use vstd::prelude::*;

verus! {

/// The characters of `s`, one per element.
pub fn chars_of(s: &str) -> (v: Vec<char>)
    ensures
        v@ == s@,
{
    let mut v: Vec<char> = Vec::new();
    for c in it: s.chars()
        invariant
            v@ == it.seq().take(it.index() as int),
            it.seq() == s@,
    {
        v.push(c);
    }
    v
}

/// A string made of the characters of `v`, in order.
pub fn string_of(v: &[char]) -> (s: String)
    ensures
        s@ == v@,
{
    let mut s = String::new();
    let mut i: usize = 0;
    while i < v.len()
        invariant
            i <= v.len(),
            s@ == v@.take(i as int),
        decreases v.len() - i,
    {
        s.push(v[i]);
        i = i + 1;
        assert(s@ == v@.take(i as int));
    }
    assert(v@.take(v.len() as int) == v@);
    s
}

} // verus!

verus! {

/// The pieces of `s` between occurrences of `sep`, as `str::split` yields
/// them for a one-character separator: `n` separators give `n + 1` pieces,
/// empty ones included.
pub open spec fn split_spec(s: Seq<char>, sep: char) -> Seq<Seq<char>>
    decreases s.len(),
{
    if s.len() == 0 {
        seq![Seq::<char>::empty()]
    } else {
        let rest = split_spec(s.drop_last(), sep);
        if s.last() == sep {
            rest.push(Seq::<char>::empty())
        } else {
            rest.drop_last().push(rest.last().push(s.last()))
        }
    }
}

/// `split_spec` always yields at least one piece.
pub proof fn lemma_split_nonempty(s: Seq<char>, sep: char)
    ensures
        split_spec(s, sep).len() >= 1,
    decreases s.len(),
{
    if s.len() > 0 {
        lemma_split_nonempty(s.drop_last(), sep);
    }
}

/// The character sequences held by a list of character vectors.
pub open spec fn views(v: Seq<Vec<char>>) -> Seq<Seq<char>> {
    Seq::new(v.len(), |i: int| v[i]@)
}

/// Splits `s` at every `sep`, as `str::split` does.
pub fn split_chars(s: &Vec<char>, sep: char) -> (pieces: Vec<Vec<char>>)
    ensures
        views(pieces@) == split_spec(s@, sep),
{
    let mut pieces: Vec<Vec<char>> = Vec::new();
    let mut cur: Vec<char> = Vec::new();
    let mut i: usize = 0;
    while i < s.len()
        invariant
            i <= s.len(),
            views(pieces@).push(cur@) == split_spec(s@.take(i as int), sep),
        decreases s.len() - i,
    {
        let c = s[i];
        proof {
            lemma_split_nonempty(s@.take(i as int), sep);
            assert(s@.take(i as int + 1).drop_last() == s@.take(i as int));
        }
        let ghost before = views(pieces@);
        let ghost cur_before = cur@;
        if c == sep {
            let done = cur;
            pieces.push(done);
            cur = Vec::new();
            assert(views(pieces@) =~= before.push(cur_before));
        } else {
            cur.push(c);
        }
        i = i + 1;
    }
    assert(s@.take(s.len() as int) == s@);
    let ghost before = views(pieces@);
    let ghost last = cur@;
    pieces.push(cur);
    assert(views(pieces@) =~= before.push(last));
    pieces
}

} // verus!

verus! {

/// Whether `a` and `b` hold the same characters.
pub fn chars_eq(a: &[char], b: &[char]) -> (r: bool)
    ensures
        r == (a@ == b@),
{
    if a.len() != b.len() {
        return false;
    }
    let mut i: usize = 0;
    while i < a.len()
        invariant
            i <= a.len(),
            a.len() == b.len(),
            forall|j: int| 0 <= j < i ==> a@[j] == b@[j],
        decreases a.len() - i,
    {
        if a[i] != b[i] {
            return false;
        }
        i = i + 1;
    }
    assert(a@ =~= b@);
    true
}

/// Whether the characters of `a` spell the string `b`.
pub fn chars_eq_str(a: &[char], b: &str) -> (r: bool)
    ensures
        r == (a@ == b@),
{
    let bv = chars_of(b);
    chars_eq(a, bv.as_slice())
}

/// `p` is a prefix of `s`.
pub open spec fn has_prefix(s: Seq<char>, p: Seq<char>) -> bool {
    p.len() <= s.len() && s.take(p.len() as int) == p
}

/// `p` is a suffix of `s`.
pub open spec fn has_suffix(s: Seq<char>, p: Seq<char>) -> bool {
    p.len() <= s.len() && s.skip(s.len() - p.len()) == p
}

/// Whether `s` starts with `p`, as `str::starts_with` answers for a string
/// pattern.
pub fn starts_with(s: &[char], p: &[char]) -> (r: bool)
    ensures
        r == has_prefix(s@, p@),
{
    if p.len() > s.len() {
        return false;
    }
    let mut i: usize = 0;
    while i < p.len()
        invariant
            i <= p.len(),
            p.len() <= s.len(),
            forall|j: int| 0 <= j < i ==> s@[j] == p@[j],
        decreases p.len() - i,
    {
        if s[i] != p[i] {
            assert(s@.take(p.len() as int)[i as int] != p@[i as int]);
            return false;
        }
        i = i + 1;
    }
    assert(s@.take(p.len() as int) =~= p@);
    true
}

/// Whether `s` ends with `p`, as `str::ends_with` answers for a string
/// pattern.
pub fn ends_with(s: &[char], p: &[char]) -> (r: bool)
    ensures
        r == has_suffix(s@, p@),
{
    if p.len() > s.len() {
        return false;
    }
    let off = s.len() - p.len();
    let mut i: usize = 0;
    while i < p.len()
        invariant
            i <= p.len(),
            off + p.len() == s.len(),
            forall|j: int| 0 <= j < i ==> s@[off + j] == p@[j],
        decreases p.len() - i,
    {
        if s[off + i] != p[i] {
            assert(s@.skip(off as int)[i as int] != p@[i as int]);
            return false;
        }
        i = i + 1;
    }
    assert(s@.skip(off as int) =~= p@);
    true
}

/// `p` occurs in `s` starting at index `i`.
pub open spec fn occurs_at(s: Seq<char>, p: Seq<char>, i: int) -> bool {
    0 <= i && i + p.len() <= s.len() && s.subrange(i, i + p.len()) == p
}

/// `i` is the index of the first occurrence of `p` in `s`.
pub open spec fn first_occurrence(s: Seq<char>, p: Seq<char>, i: int) -> bool {
    occurs_at(s, p, i) && forall|j: int| 0 <= j < i ==> !occurs_at(s, p, j)
}

/// `s` with the first occurrence of `p` taken out, as
/// `str::replacen(p, "", 1)` gives it; `s` itself when `p` does not occur.
pub open spec fn remove_first(s: Seq<char>, p: Seq<char>) -> Seq<char> {
    if exists|i: int| occurs_at(s, p, i) {
        let i = choose|i: int| first_occurrence(s, p, i);
        s.take(i) + s.skip(i + p.len())
    } else {
        s
    }
}

/// The first occurrence is unique.
pub proof fn lemma_first_occurrence_unique(s: Seq<char>, p: Seq<char>, i: int, k: int)
    requires
        first_occurrence(s, p, i),
        first_occurrence(s, p, k),
    ensures
        i == k,
{
}

/// Index of the first occurrence of `p` in `s`, if any.
pub fn find(s: &[char], p: &[char]) -> (r: Option<usize>)
    ensures
        match r {
            Some(i) => first_occurrence(s@, p@, i as int),
            None => forall|i: int| !occurs_at(s@, p@, i),
        },
{
    if p.len() > s.len() {
        return None;
    }
    let last = s.len() - p.len();
    let mut i: usize = 0;
    while i <= last
        invariant
            last + p.len() == s.len(),
            forall|j: int| 0 <= j < i ==> !occurs_at(s@, p@, j),
        decreases last + 1 - i,
    {
        let mut k: usize = 0;
        let mut same = true;
        while k < p.len()
            invariant
                k <= p.len(),
                i <= last,
                last + p.len() == s.len(),
                same == forall|j: int| 0 <= j < k ==> s@[i + j] == p@[j],
            decreases p.len() - k,
        {
            if s[i + k] != p[k] {
                same = false;
            }
            k = k + 1;
        }
        if same {
            assert(s@.subrange(i as int, i + p.len()) =~= p@);
            return Some(i);
        }
        assert(!occurs_at(s@, p@, i as int)) by {
            let w = choose|j: int| 0 <= j < p.len() && s@[i + j] != p@[j];
            assert(s@.subrange(i as int, i + p.len())[w] != p@[w]);
        }
        i = i + 1;
    }
    None
}

/// `s` with the first occurrence of `p` removed, as `str::replacen(p, "", 1)`.
pub fn remove_first_of(s: &[char], p: &[char]) -> (r: Vec<char>)
    ensures
        r@ == remove_first(s@, p@),
{
    match find(s, p) {
        Some(i) => {
            proof {
                let k = choose|k: int| first_occurrence(s@, p@, k);
                lemma_first_occurrence_unique(s@, p@, i as int, k);
            }
            let mut r: Vec<char> = Vec::new();
            let mut j: usize = 0;
            while j < i
                invariant
                    j <= i,
                    i + p.len() <= s.len(),
                    r@ == s@.take(j as int),
                decreases i - j,
            {
                r.push(s[j]);
                j = j + 1;
                assert(r@ =~= s@.take(j as int));
            }
            let mut j: usize = i + p.len();
            while j < s.len()
                invariant
                    i + p.len() <= j <= s.len(),
                    r@ == s@.take(i as int) + s@.subrange(i + p.len(), j as int),
                decreases s.len() - j,
            {
                r.push(s[j]);
                j = j + 1;
                assert(r@ =~= s@.take(i as int) + s@.subrange(i + p.len(), j as int));
            }
            assert(s@.subrange(i + p.len(), s.len() as int) =~= s@.skip(i + p.len()));
            r
        },
        None => {
            let mut r: Vec<char> = Vec::new();
            let mut j: usize = 0;
            while j < s.len()
                invariant
                    j <= s.len(),
                    r@ == s@.take(j as int),
                decreases s.len() - j,
            {
                r.push(s[j]);
                j = j + 1;
                assert(r@ =~= s@.take(j as int));
            }
            assert(s@.take(s.len() as int) =~= s@);
            r
        },
    }
}

} // verus!

verus! {

/// Unicode `White_Space`, the property that `char::is_whitespace` and
/// `str::trim` use.
pub open spec fn is_white_space(c: char) -> bool {
    let u = c as u32;
    ||| 9 <= u <= 13
    ||| u == 32
    ||| u == 0x85
    ||| u == 0xa0
    ||| u == 0x1680
    ||| 0x2000 <= u <= 0x200a
    ||| u == 0x2028
    ||| u == 0x2029
    ||| u == 0x202f
    ||| u == 0x205f
    ||| u == 0x3000
}

/// Whether `c` is Unicode white space.
pub fn white_space(c: char) -> (r: bool)
    ensures
        r == is_white_space(c),
{
    let u = c as u32;
    (9 <= u && u <= 13) || u == 32 || u == 0x85 || u == 0xa0 || u == 0x1680 || (0x2000 <= u && u
        <= 0x200a) || u == 0x2028 || u == 0x2029 || u == 0x202f || u == 0x205f || u == 0x3000
}

/// `s` without leading and trailing white space, as `str::trim` gives it:
/// the part between index `lo` and index `hi` where `lo` is the first non
/// white space character and `hi` is one past the last one.
pub open spec fn is_trim_of(s: Seq<char>, t: Seq<char>) -> bool {
    exists|lo: int, hi: int|
        {
            &&& 0 <= lo <= hi <= s.len()
            &&& t == s.subrange(lo, hi)
            &&& forall|j: int| 0 <= j < lo ==> is_white_space(#[trigger] s[j])
            &&& forall|j: int| hi <= j < s.len() ==> is_white_space(#[trigger] s[j])
            &&& (lo < hi ==> !is_white_space(s[lo]) && !is_white_space(s[hi - 1]))
        }
}

/// The trimmed text is unique.
pub proof fn lemma_trim_unique(s: Seq<char>, t1: Seq<char>, t2: Seq<char>)
    requires
        is_trim_of(s, t1),
        is_trim_of(s, t2),
    ensures
        t1 == t2,
{
    let (lo1, hi1) = choose|lo: int, hi: int|
        {
            &&& 0 <= lo <= hi <= s.len()
            &&& t1 == s.subrange(lo, hi)
            &&& forall|j: int| 0 <= j < lo ==> is_white_space(#[trigger] s[j])
            &&& forall|j: int| hi <= j < s.len() ==> is_white_space(#[trigger] s[j])
            &&& (lo < hi ==> !is_white_space(s[lo]) && !is_white_space(s[hi - 1]))
        };
    let (lo2, hi2) = choose|lo: int, hi: int|
        {
            &&& 0 <= lo <= hi <= s.len()
            &&& t2 == s.subrange(lo, hi)
            &&& forall|j: int| 0 <= j < lo ==> is_white_space(#[trigger] s[j])
            &&& forall|j: int| hi <= j < s.len() ==> is_white_space(#[trigger] s[j])
            &&& (lo < hi ==> !is_white_space(s[lo]) && !is_white_space(s[hi - 1]))
        };
    if lo1 < hi1 && lo2 < hi2 {
        if lo1 < lo2 {
            assert(is_white_space(s[lo1]));
        }
        if lo2 < lo1 {
            assert(is_white_space(s[lo2]));
        }
        if hi1 < hi2 {
            assert(is_white_space(s[hi2 - 1]));
        }
        if hi2 < hi1 {
            assert(is_white_space(s[hi1 - 1]));
        }
    } else if lo1 < hi1 {
        assert(is_white_space(s[lo1]));
    } else if lo2 < hi2 {
        assert(is_white_space(s[lo2]));
    }
}

/// `s` without leading and trailing white space.
pub fn trim(s: &[char]) -> (t: Vec<char>)
    ensures
        is_trim_of(s@, t@),
{
    let mut lo: usize = 0;
    while lo < s.len() && white_space(s[lo])
        invariant
            lo <= s.len(),
            forall|j: int| 0 <= j < lo ==> is_white_space(#[trigger] s@[j]),
        decreases s.len() - lo,
    {
        lo = lo + 1;
    }
    let mut hi: usize = s.len();
    while hi > lo && white_space(s[hi - 1])
        invariant
            lo <= hi <= s.len(),
            forall|j: int| hi <= j < s.len() ==> is_white_space(#[trigger] s@[j]),
        decreases hi,
    {
        hi = hi - 1;
    }
    let mut t: Vec<char> = Vec::new();
    let mut k: usize = lo;
    while k < hi
        invariant
            lo <= k <= hi,
            hi <= s.len(),
            t@ == s@.subrange(lo as int, k as int),
        decreases hi - k,
    {
        t.push(s[k]);
        k = k + 1;
        assert(t@ =~= s@.subrange(lo as int, k as int));
    }
    assert(is_trim_of(s@, t@)) by {
        assert(0 <= lo <= hi <= s.len());
    }
    t
}

} // verus!

verus! {

/// An ASCII decimal digit.
pub open spec fn is_digit(c: char) -> bool {
    '0' <= c && c <= '9'
}

/// The value of a decimal digit.
pub open spec fn digit_value(c: char) -> nat {
    ((c as u32) - ('0' as u32)) as nat
}

/// The value of a string of decimal digits, most significant first.
pub open spec fn digits_value(s: Seq<char>) -> nat
    decreases s.len(),
{
    if s.len() == 0 {
        0
    } else {
        digits_value(s.drop_last()) * 10 + digit_value(s.last())
    }
}

/// Every character of `s` is a decimal digit.
pub open spec fn all_digits(s: Seq<char>) -> bool {
    forall|i: int| 0 <= i < s.len() ==> is_digit(#[trigger] s[i])
}

/// What `u64::from_str` and its kin read the digits from: the text after one
/// leading `+`, if there is one.
pub open spec fn unsigned_digits(s: Seq<char>) -> Seq<char> {
    if s.len() > 0 && s[0] == '+' {
        s.drop_first()
    } else {
        s
    }
}

/// What parsing `s` as an unsigned integer whose largest value is `max`
/// gives, as `str::parse` does for Rust's unsigned integer types: the digits
/// after an optional `+` must be present, all decimal, and their value at
/// most `max`.
pub open spec fn parse_unsigned(s: Seq<char>, max: nat) -> Option<nat> {
    let d = unsigned_digits(s);
    if d.len() > 0 && all_digits(d) && digits_value(d) <= max {
        Some(digits_value(d))
    } else {
        None
    }
}

/// Appending digits never lowers the value.
pub proof fn lemma_digits_value_monotone(s: Seq<char>, i: int, j: int)
    requires
        0 <= i <= j <= s.len(),
    ensures
        digits_value(s.take(i)) <= digits_value(s.take(j)),
    decreases j - i,
{
    if i < j {
        lemma_digits_value_monotone(s, i, j - 1);
        assert(s.take(j).drop_last() =~= s.take(j - 1));
    }
}

/// Parses `s` as an unsigned decimal number no larger than `max`.
pub fn parse_unsigned_chars(s: &[char], max: u64) -> (r: Option<u64>)
    ensures
        match r {
            Some(v) => parse_unsigned(s@, max as nat) == Some(v as nat),
            None => parse_unsigned(s@, max as nat) is None,
        },
{
    let ghost d = unsigned_digits(s@);
    let start: usize = if s.len() > 0 && s[0] == '+' {
        1
    } else {
        0
    };
    assert(d =~= s@.skip(start as int));
    if start >= s.len() {
        return None;
    }
    let mut acc: u64 = 0;
    let mut i: usize = start;
    while i < s.len()
        invariant
            start <= i <= s.len(),
            start < s.len(),
            d == s@.skip(start as int),
            d == unsigned_digits(s@),
            acc <= max,
            acc as nat == digits_value(d.take(i - start)),
            all_digits(d.take(i - start)),
        decreases s.len() - i,
    {
        let c = s[i];
        let k = i - start;
        assert(d.take(k + 1).drop_last() =~= d.take(k as int));
        assert(d[k as int] == c);
        if !('0' <= c && c <= '9') {
            assert(!all_digits(d));
            return None;
        }
        let digit = (c as u32 - '0' as u32) as u64;
        let next: u128 = (acc as u128) * 10 + (digit as u128);
        if next > max as u128 {
            proof {
                lemma_digits_value_monotone(d, k + 1, d.len() as int);
                assert(d.take(d.len() as int) =~= d);
            }
            return None;
        }
        acc = next as u64;
        i = i + 1;
        assert(all_digits(d.take(i - start))) by {
            assert forall|j: int| 0 <= j < d.take(i - start).len() implies is_digit(
                #[trigger] d.take(i - start)[j],
            ) by {
                if j < k {
                    assert(d.take(i - start)[j] == d.take(k as int)[j]);
                }
            }
        }
    }
    assert(d.take(d.len() as int) =~= d);
    Some(acc)
}

/// Parses `s` as `u64`, as `s.parse::<u64>().ok()` does.
pub fn parse_u64(s: &[char]) -> (r: Option<u64>)
    ensures
        match r {
            Some(v) => parse_unsigned(s@, u64::MAX as nat) == Some(v as nat),
            None => parse_unsigned(s@, u64::MAX as nat) is None,
        },
{
    parse_unsigned_chars(s, u64::MAX)
}

/// Parses `s` as `usize`, as `s.parse::<usize>().ok()` does.
pub fn parse_usize(s: &[char]) -> (r: Option<usize>)
    ensures
        match r {
            Some(v) => parse_unsigned(s@, usize::MAX as nat) == Some(v as nat),
            None => parse_unsigned(s@, usize::MAX as nat) is None,
        },
{
    match parse_unsigned_chars(s, usize::MAX as u64) {
        Some(v) => Some(v as usize),
        None => None,
    }
}

/// Parses `s` as `u16`, as `s.parse::<u16>().ok()` does.
pub fn parse_u16(s: &[char]) -> (r: Option<u16>)
    ensures
        match r {
            Some(v) => parse_unsigned(s@, u16::MAX as nat) == Some(v as nat),
            None => parse_unsigned(s@, u16::MAX as nat) is None,
        },
{
    match parse_unsigned_chars(s, u16::MAX as u64) {
        Some(v) => Some(v as u16),
        None => None,
    }
}

/// Parses `s` as `u8`, as `s.parse::<u8>().ok()` does.
pub fn parse_u8(s: &[char]) -> (r: Option<u8>)
    ensures
        match r {
            Some(v) => parse_unsigned(s@, u8::MAX as nat) == Some(v as nat),
            None => parse_unsigned(s@, u8::MAX as nat) is None,
        },
{
    match parse_unsigned_chars(s, u8::MAX as u64) {
        Some(v) => Some(v as u8),
        None => None,
    }
}

/// What `bool::from_str` gives: exactly `true` or `false`.
pub open spec fn parse_bool_spec(s: Seq<char>) -> Option<bool> {
    if s == seq!['t', 'r', 'u', 'e'] {
        Some(true)
    } else if s == seq!['f', 'a', 'l', 's', 'e'] {
        Some(false)
    } else {
        None
    }
}

/// Parses `s` as `bool`, as `s.parse::<bool>().ok()` does.
pub fn parse_bool(s: &[char]) -> (r: Option<bool>)
    ensures
        r == parse_bool_spec(s@),
{
    let t = ['t', 'r', 'u', 'e'];
    let f = ['f', 'a', 'l', 's', 'e'];
    assert(t@ =~= seq!['t', 'r', 'u', 'e']);
    assert(f@ =~= seq!['f', 'a', 'l', 's', 'e']);
    if chars_eq(s, t.as_slice()) {
        Some(true)
    } else if chars_eq(s, f.as_slice()) {
        Some(false)
    } else {
        None
    }
}

} // verus!

verus! {

/// The decimal digit character for `d < 10`.
pub open spec fn digit_char(d: nat) -> char {
    (('0' as u32) + d) as char
}

/// The decimal representation of `n`, as `to_string` writes an unsigned
/// integer: no sign, no leading zeros, `0` for zero.
pub open spec fn decimal(n: nat) -> Seq<char>
    decreases n,
{
    if n < 10 {
        seq![digit_char(n)]
    } else {
        decimal(n / 10).push(digit_char(n % 10))
    }
}

/// The decimal representation is made of digits, does not start with `+`,
/// and reads back as the number.
pub proof fn lemma_decimal_digits(n: nat)
    ensures
        decimal(n).len() >= 1,
        all_digits(decimal(n)),
        decimal(n)[0] != '+',
        digits_value(decimal(n)) == n,
    decreases n,
{
    if n >= 10 {
        lemma_decimal_digits(n / 10);
        let d = decimal(n);
        assert(d.drop_last() =~= decimal(n / 10));
        assert(digit_value(digit_char(n % 10)) == n % 10);
        assert(d.last() == digit_char(n % 10));
        assert(digits_value(d) == digits_value(decimal(n / 10)) * 10 + n % 10);
        assert(n == (n / 10) * 10 + n % 10) by (nonlinear_arith);
        assert(digits_value(d) == n);
    } else {
        assert(digit_value(digit_char(n)) == n);
        assert(decimal(n).drop_last() =~= Seq::<char>::empty());
        assert(decimal(n).last() == digit_char(n));
        assert(digits_value(Seq::<char>::empty()) == 0);
        assert(digits_value(decimal(n)) == digits_value(decimal(n).drop_last()) * 10 + digit_value(
            decimal(n).last(),
        ));
    }
}

/// Writes `n` in decimal, as `n.to_string()` does.
pub fn decimal_string(n: u64) -> (s: String)
    ensures
        s@ == decimal(n as nat),
{
    let mut rev: Vec<char> = Vec::new();
    let mut m: u64 = n;
    if n == 0 {
        rev.push('0');
        assert(decimal(0) =~= rev@.reverse());
    }
    while m > 0
        invariant
            m <= n,
            n == 0 ==> decimal(n as nat) == rev@.reverse(),
            n > 0 ==> decimal(n as nat) == (if m > 0 {
                decimal(m as nat)
            } else {
                Seq::<char>::empty()
            }) + rev@.reverse(),
        decreases m,
    {
        let d = (m % 10) as u32;
        let c = char_from_digit(d);
        proof {
            if m >= 10 {
                assert(decimal(m as nat) == decimal((m / 10) as nat).push(c));
            } else {
                assert(decimal(m as nat) =~= seq![c]);
            }
        }
        let ghost old_rev = rev@;
        rev.push(c);
        assert(rev@.reverse() =~= seq![c] + old_rev.reverse());
        m = m / 10;
        assert(n > 0 ==> decimal(n as nat) =~= (if m > 0 {
            decimal(m as nat)
        } else {
            Seq::<char>::empty()
        }) + rev@.reverse());
    }
    assert(decimal(n as nat) =~= rev@.reverse());
    let mut s = String::new();
    let mut i: usize = rev.len();
    while i > 0
        invariant
            i <= rev.len(),
            s@ == rev@.reverse().take(rev.len() - i),
        decreases i,
    {
        i = i - 1;
        s.push(rev[i]);
        assert(s@ =~= rev@.reverse().take(rev.len() - i));
    }
    assert(rev@.reverse().take(rev.len() as int) =~= rev@.reverse());
    s
}

/// The character of a decimal digit.
fn char_from_digit(d: u32) -> (c: char)
    requires
        d < 10,
    ensures
        c == digit_char(d as nat),
{
    if d == 0 {
        '0'
    } else if d == 1 {
        '1'
    } else if d == 2 {
        '2'
    } else if d == 3 {
        '3'
    } else if d == 4 {
        '4'
    } else if d == 5 {
        '5'
    } else if d == 6 {
        '6'
    } else if d == 7 {
        '7'
    } else if d == 8 {
        '8'
    } else {
        '9'
    }
}

/// Parsing the decimal representation of a number gives the number back.
pub proof fn law_parse_decimal_round_trip(n: nat, max: nat)
    requires
        n <= max,
    ensures
        parse_unsigned(decimal(n), max) == Some(n),
{
    lemma_decimal_digits(n);
    assert(unsigned_digits(decimal(n)) == decimal(n));
}

} // verus!

verus! {

/// `s` without one trailing carriage return, if it has one.
pub open spec fn strip_cr(s: Seq<char>) -> Seq<char> {
    if s.len() > 0 && s.last() == '\r' {
        s.drop_last()
    } else {
        s
    }
}

/// The lines that reading `content` line by line yields (`BufRead::lines`,
/// tokio's `Lines::next_line`): the text is cut at each `\n`; a line ended by
/// `\n` loses one `\r` before it; an empty remainder after the last `\n` is
/// no line.
pub open spec fn lines_spec(content: Seq<char>) -> Seq<Seq<char>> {
    let p = split_spec(content, '\n');
    let n = if p.last().len() == 0 {
        p.len() - 1
    } else {
        p.len() as int
    };
    Seq::new(
        n as nat,
        |i: int|
            if i < p.len() - 1 {
                strip_cr(p[i])
            } else {
                p[i]
            },
    )
}

/// The lines of `content`, as reading it line by line gives them.
pub fn text_lines(content: &str) -> (lines: Vec<String>)
    ensures
        lines.deep_view() == lines_spec(content@),
{
    let cs = chars_of(content);
    let pieces = split_chars(&cs, '\n');
    proof {
        lemma_split_nonempty(cs@, '\n');
    }
    let np = pieces.len();
    let n = if pieces[np - 1].len() == 0 {
        np - 1
    } else {
        np
    };
    let mut lines: Vec<String> = Vec::new();
    let mut i: usize = 0;
    while i < n
        invariant
            i <= n,
            np == pieces.len(),
            np >= 1,
            n <= np,
            views(pieces@) == split_spec(cs@, '\n'),
            n == (if views(pieces@).last().len() == 0 {
                np - 1
            } else {
                np as int
            }),
            cs@ == content@,
            lines.deep_view() =~= lines_spec(content@).take(i as int),
        decreases n - i,
    {
        let piece = &pieces[i];
        let pl = piece.len();
        let line = if i + 1 < np && pl > 0 && piece[pl - 1] == '\r' {
            string_of(&piece.as_slice()[0..pl - 1])
        } else {
            string_of(piece.as_slice())
        };
        proof {
            assert(views(pieces@)[i as int] == piece@);
            if i + 1 < np && pl > 0 && piece@[pl - 1] == '\r' {
                assert(piece@.subrange(0, pl - 1) =~= piece@.drop_last());
            }
        }
        let ghost before = lines.deep_view();
        lines.push(line);
        assert(lines.deep_view() =~= before.push(lines_spec(content@)[i as int]));
        i = i + 1;
    }
    lines
}

/// `lines` joined with `sep` between consecutive elements, as `join` does.
pub open spec fn join_spec(lines: Seq<Seq<char>>, sep: Seq<char>) -> Seq<char>
    decreases lines.len(),
{
    if lines.len() == 0 {
        Seq::empty()
    } else if lines.len() == 1 {
        lines[0]
    } else {
        join_spec(lines.drop_last(), sep) + sep + lines.last()
    }
}

/// `lines` joined with `sep`, as `lines.join(sep)` does.
pub fn join(lines: &Vec<String>, sep: &str) -> (s: String)
    ensures
        s@ == join_spec(lines.deep_view(), sep@),
{
    let mut s = String::new();
    let mut i: usize = 0;
    while i < lines.len()
        invariant
            i <= lines.len(),
            s@ == join_spec(lines.deep_view().take(i as int), sep@),
        decreases lines.len() - i,
    {
        assert(lines.deep_view().take(i + 1).drop_last() =~= lines.deep_view().take(i as int));
        if i > 0 {
            s.append(sep);
        } else {
            assert(s@ =~= Seq::<char>::empty());
        }
        s.append(lines[i].as_str());
        i = i + 1;
        assert(s@ =~= join_spec(lines.deep_view().take(i as int), sep@));
    }
    assert(lines.deep_view().take(lines.len() as int) =~= lines.deep_view());
    s
}

} // verus!

verus! {

/// A string without the separator is one piece.
pub proof fn lemma_split_no_sep(s: Seq<char>, sep: char)
    requires
        !s.contains(sep),
    ensures
        split_spec(s, sep) == seq![s],
    decreases s.len(),
{
    if s.len() > 0 {
        assert(!s.drop_last().contains(sep)) by {
            if s.drop_last().contains(sep) {
                let k = choose|k: int| 0 <= k < s.drop_last().len() && s.drop_last()[k] == sep;
                assert(s[k] == sep);
            }
        }
        lemma_split_no_sep(s.drop_last(), sep);
        assert(s.last() != sep) by {
            assert(s[s.len() - 1] == s.last());
        }
        assert(s.drop_last().push(s.last()) =~= s);
        assert(seq![s.drop_last()].drop_last().push(s) =~= seq![s]);
    } else {
        assert(s =~= Seq::<char>::empty());
    }
}

/// Splitting at a separator splits the two sides independently.
pub proof fn lemma_split_concat(t: Seq<char>, u: Seq<char>, sep: char)
    ensures
        split_spec(t + seq![sep] + u, sep) == split_spec(t, sep) + split_spec(u, sep),
    decreases u.len(),
{
    lemma_split_nonempty(t, sep);
    if u.len() == 0 {
        assert(t + seq![sep] + u =~= t.push(sep));
        assert((t.push(sep)).drop_last() =~= t);
        assert(split_spec(u, sep) =~= seq![Seq::<char>::empty()]);
        assert(split_spec(t, sep).push(Seq::<char>::empty()) =~= split_spec(t, sep) + seq![
            Seq::<char>::empty(),
        ]);
    } else {
        let s = t + seq![sep] + u;
        lemma_split_concat(t, u.drop_last(), sep);
        lemma_split_nonempty(u.drop_last(), sep);
        assert(s.drop_last() =~= t + seq![sep] + u.drop_last());
        assert(s.last() == u.last());
        let a = split_spec(t, sep);
        let b = split_spec(u.drop_last(), sep);
        if u.last() == sep {
            assert((a + b).push(Seq::<char>::empty()) =~= a + b.push(Seq::<char>::empty()));
        } else {
            assert((a + b).last() == b.last());
            assert((a + b).drop_last().push((a + b).last().push(u.last())) =~= a + b.drop_last().push(
                b.last().push(u.last()),
            ));
        }
    }
}

/// Cutting text joined with `\n` gives the joined lines back, when none of
/// them holds a `\n`.
pub proof fn lemma_split_join(lines: Seq<Seq<char>>)
    requires
        lines.len() >= 1,
        forall|i: int| 0 <= i < lines.len() ==> !(#[trigger] lines[i]).contains('\n'),
    ensures
        split_spec(join_spec(lines, seq!['\n']), '\n') == lines,
    decreases lines.len(),
{
    if lines.len() == 1 {
        lemma_split_no_sep(lines[0], '\n');
        assert(seq![lines[0]] =~= lines);
    } else {
        let init = lines.drop_last();
        assert forall|i: int| 0 <= i < init.len() implies !(#[trigger] init[i]).contains('\n') by {
            assert(init[i] == lines[i]);
        }
        lemma_split_join(init);
        assert(!lines[lines.len() - 1].contains('\n'));
        lemma_split_no_sep(lines.last(), '\n');
        lemma_split_concat(join_spec(init, seq!['\n']), lines.last(), '\n');
        assert(join_spec(lines, seq!['\n']) == join_spec(init, seq!['\n']) + seq!['\n'] + lines.last());
        assert(init + seq![lines.last()] =~= lines);
    }
}

/// Reading back text written as lines joined with `\n` gives the lines, each
/// but the last without one trailing `\r`, provided that no line holds a
/// `\n` and the last line is not empty.
pub proof fn law_lines_of_joined(lines: Seq<Seq<char>>)
    requires
        lines.len() >= 1,
        lines.last().len() > 0,
        forall|i: int| 0 <= i < lines.len() ==> !(#[trigger] lines[i]).contains('\n'),
    ensures
        lines_spec(join_spec(lines, seq!['\n'])) == Seq::new(
            lines.len(),
            |i: int|
                if i < lines.len() - 1 {
                    strip_cr(lines[i])
                } else {
                    lines[i]
                },
        ),
{
    lemma_split_join(lines);
    assert(lines_spec(join_spec(lines, seq!['\n'])) =~= Seq::new(
        lines.len(),
        |i: int|
            if i < lines.len() - 1 {
                strip_cr(lines[i])
            } else {
                lines[i]
            },
    ));
}

} // verus!

verus! {

/// No piece of a split holds the separator, nor a character that the whole
/// text lacks.
pub proof fn lemma_split_pieces_lack(s: Seq<char>, sep: char, c: char)
    requires
        c == sep || !s.contains(c),
    ensures
        forall|i: int|
            0 <= i < split_spec(s, sep).len() ==> !(#[trigger] split_spec(s, sep)[i]).contains(c),
    decreases s.len(),
{
    if s.len() > 0 {
        assert(c == sep || !s.drop_last().contains(c)) by {
            if c != sep && s.drop_last().contains(c) {
                let k = choose|k: int| 0 <= k < s.drop_last().len() && s.drop_last()[k] == c;
                assert(s[k] == c);
            }
        }
        lemma_split_pieces_lack(s.drop_last(), sep, c);
        lemma_split_nonempty(s.drop_last(), sep);
        let rest = split_spec(s.drop_last(), sep);
        let r = split_spec(s, sep);
        if s.last() != sep {
            assert(s.last() != c) by {
                assert(s[s.len() - 1] == s.last());
            }
            let nl = rest.last().push(s.last());
            assert(!nl.contains(c)) by {
                if nl.contains(c) {
                    let k = choose|k: int| 0 <= k < nl.len() && nl[k] == c;
                    if k < rest.last().len() {
                        assert(rest.last()[k] == c);
                        assert(rest[rest.len() - 1] == rest.last());
                    }
                }
            }
            assert forall|i: int| 0 <= i < r.len() implies !(#[trigger] r[i]).contains(c) by {
                if i < r.len() - 1 {
                    assert(r[i] == rest[i]);
                }
            }
        } else {
            assert forall|i: int| 0 <= i < r.len() implies !(#[trigger] r[i]).contains(c) by {
                if i < r.len() - 1 {
                    assert(r[i] == rest[i]);
                } else {
                    assert(r[i] =~= Seq::<char>::empty());
                }
            }
        }
    }
}

/// Two texts without the separator, joined by it, split into exactly them.
pub proof fn lemma_split_pair(a: Seq<char>, b: Seq<char>, sep: char)
    requires
        !a.contains(sep),
        !b.contains(sep),
    ensures
        split_spec(a + seq![sep] + b, sep) == seq![a, b],
{
    lemma_split_concat(a, b, sep);
    lemma_split_no_sep(a, sep);
    lemma_split_no_sep(b, sep);
    assert(seq![a] + seq![b] =~= seq![a, b]);
}

} // verus!

verus! {

/// Joining the pieces of a split with the separator gives the text back.
pub proof fn lemma_join_split(s: Seq<char>, sep: char)
    ensures
        join_spec(split_spec(s, sep), seq![sep]) == s,
    decreases s.len(),
{
    if s.len() == 0 {
        assert(split_spec(s, sep) =~= seq![Seq::<char>::empty()]);
        assert(s =~= Seq::<char>::empty());
    } else {
        lemma_join_split(s.drop_last(), sep);
        lemma_split_nonempty(s.drop_last(), sep);
        let rest = split_spec(s.drop_last(), sep);
        if s.last() == sep {
            let r = rest.push(Seq::<char>::empty());
            assert(r.drop_last() =~= rest);
            assert(join_spec(r, seq![sep]) =~= s.drop_last() + seq![sep] + Seq::<char>::empty());
            assert(s.drop_last().push(sep) =~= s);
        } else {
            let r = rest.drop_last().push(rest.last().push(s.last()));
            if rest.len() == 1 {
                assert(join_spec(r, seq![sep]) == r[0]);
                assert(join_spec(rest, seq![sep]) == rest[0]);
                assert(s =~= rest[0].push(s.last()));
            } else {
                assert(r.drop_last() =~= rest.drop_last());
                assert(join_spec(rest, seq![sep]) == join_spec(rest.drop_last(), seq![sep]) + seq![
                    sep,
                ] + rest.last());
                assert(join_spec(r, seq![sep]) =~= join_spec(rest, seq![sep]).push(s.last()));
                assert(s.drop_last().push(s.last()) =~= s);
            }
        }
    }
}

} // verus!
