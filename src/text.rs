//! Character-level helpers shared by the grammars: whitespace, trimming and
//! decimal numbers, with their mathematical meaning.
use vstd::prelude::*;

verus! {

/// The characters that separate tokens: the Unicode `White_Space` set.
pub open spec fn is_space_spec(c: char) -> bool {
    let v = c as u32;
    (0x9 <= v && v <= 0xD) || v == 0x20 || v == 0x85 || v == 0xA0 || v == 0x1680 || (0x2000 <= v
        && v <= 0x200A) || v == 0x2028 || v == 0x2029 || v == 0x202F || v == 0x205F || v == 0x3000
}

/// `s` without its leading whitespace.
pub open spec fn trim_start(s: Seq<char>) -> Seq<char>
    decreases s.len(),
{
    if s.len() > 0 && is_space_spec(s[0]) {
        trim_start(s.drop_first())
    } else {
        s
    }
}

/// `s` without its trailing whitespace.
pub open spec fn trim_end(s: Seq<char>) -> Seq<char>
    decreases s.len(),
{
    if s.len() > 0 && is_space_spec(s.last()) {
        trim_end(s.drop_last())
    } else {
        s
    }
}

/// `s` without leading and trailing whitespace.
pub open spec fn trim(s: Seq<char>) -> Seq<char> {
    trim_end(trim_start(s))
}

/// `s` holds no whitespace at either end.
pub open spec fn is_trimmed(s: Seq<char>) -> bool {
    s.len() == 0 || (!is_space_spec(s[0]) && !is_space_spec(s.last()))
}

/// `s` holds no whitespace at all.
pub open spec fn no_space(s: Seq<char>) -> bool {
    forall|i: int| 0 <= i < s.len() ==> !is_space_spec(#[trigger] s[i])
}

/// `s` holds no occurrence of `c`.
pub open spec fn lacks(s: Seq<char>, c: char) -> bool {
    forall|i: int| 0 <= i < s.len() ==> #[trigger] s[i] != c
}

pub fn is_space(c: char) -> (r: bool)
    ensures
        r == is_space_spec(c),
{
    let v = c as u32;
    (0x9 <= v && v <= 0xD) || v == 0x20 || v == 0x85 || v == 0xA0 || v == 0x1680 || (0x2000 <= v
        && v <= 0x200A) || v == 0x2028 || v == 0x2029 || v == 0x202F || v == 0x205F || v == 0x3000
}

pub proof fn lemma_trim_start_of_trimmed(s: Seq<char>)
    requires
        s.len() == 0 || !is_space_spec(s[0]),
    ensures
        trim_start(s) == s,
{
}

pub proof fn lemma_trim_end_of_trimmed(s: Seq<char>)
    requires
        s.len() == 0 || !is_space_spec(s.last()),
    ensures
        trim_end(s) == s,
{
}

/// Trimming leaves nothing to trim.
pub proof fn lemma_trim_is_trimmed(s: Seq<char>)
    ensures
        is_trimmed(trim(s)),
        trim(trim(s)) == trim(s),
    decreases s.len(),
{
    lemma_trim_start_front(s);
    lemma_trim_end_back(trim_start(s));
    let t = trim_start(s);
    if trim_end(t).len() > 0 {
        lemma_trim_end_keeps_front(t);
    }
    lemma_trim_start_of_trimmed(trim(s));
    lemma_trim_end_of_trimmed(trim(s));
}

proof fn lemma_trim_start_front(s: Seq<char>)
    ensures
        trim_start(s).len() == 0 || !is_space_spec(trim_start(s)[0]),
    decreases s.len(),
{
    if s.len() > 0 && is_space_spec(s[0]) {
        lemma_trim_start_front(s.drop_first());
    }
}

proof fn lemma_trim_end_back(s: Seq<char>)
    ensures
        trim_end(s).len() == 0 || !is_space_spec(trim_end(s).last()),
    decreases s.len(),
{
    if s.len() > 0 && is_space_spec(s.last()) {
        lemma_trim_end_back(s.drop_last());
    }
}

/// Trimming the end keeps a prefix.
pub proof fn lemma_trim_end_prefix(s: Seq<char>)
    ensures
        trim_end(s).len() <= s.len(),
        trim_end(s) == s.subrange(0, trim_end(s).len() as int),
    decreases s.len(),
{
    if s.len() > 0 && is_space_spec(s.last()) {
        lemma_trim_end_prefix(s.drop_last());
        assert(s.drop_last().subrange(0, trim_end(s).len() as int) == s.subrange(
            0,
            trim_end(s).len() as int,
        ));
    } else {
        assert(s.subrange(0, s.len() as int) == s);
    }
}

proof fn lemma_trim_end_keeps_front(s: Seq<char>)
    requires
        trim_end(s).len() > 0,
    ensures
        trim_end(s)[0] == s[0],
{
    lemma_trim_end_prefix(s);
}

/// The index of the first non-space character of `s[lo..hi]`, or `hi`.
pub fn skip_space(s: &Vec<char>, lo: usize, hi: usize) -> (r: usize)
    requires
        lo <= hi <= s.len(),
    ensures
        lo <= r <= hi,
        trim_start(s@.subrange(lo as int, hi as int)) == s@.subrange(r as int, hi as int),
        r < hi ==> !is_space_spec(s@[r as int]),
        forall|k: int| lo <= k < r ==> is_space_spec(#[trigger] s@[k]),
{
    let mut i: usize = lo;
    while i < hi && is_space(s[i])
        invariant
            lo <= i <= hi <= s.len(),
            trim_start(s@.subrange(lo as int, hi as int)) == trim_start(
                s@.subrange(i as int, hi as int),
            ),
            forall|k: int| lo <= k < i ==> is_space_spec(#[trigger] s@[k]),
        decreases hi - i,
    {
        assert(s@.subrange(i as int, hi as int).drop_first() == s@.subrange(
            i + 1,
            hi as int,
        ));
        i = i + 1;
    }
    i
}

/// The index just past the last non-space character of `s[lo..hi]`, or `lo`.
pub fn skip_space_back(s: &Vec<char>, lo: usize, hi: usize) -> (r: usize)
    requires
        lo <= hi <= s.len(),
    ensures
        lo <= r <= hi,
        trim_end(s@.subrange(lo as int, hi as int)) == s@.subrange(lo as int, r as int),
        lo < r ==> !is_space_spec(s@[r - 1]),
        forall|k: int| r <= k < hi ==> is_space_spec(#[trigger] s@[k]),
{
    let mut j: usize = hi;
    while j > lo && is_space(s[j - 1])
        invariant
            lo <= j <= hi <= s.len(),
            trim_end(s@.subrange(lo as int, hi as int)) == trim_end(
                s@.subrange(lo as int, j as int),
            ),
            forall|k: int| j <= k < hi ==> is_space_spec(#[trigger] s@[k]),
        decreases j - lo,
    {
        assert(s@.subrange(lo as int, j as int).drop_last() == s@.subrange(
            lo as int,
            j - 1,
        ));
        j = j - 1;
    }
    j
}

/// The bounds of `s[lo..hi]` with its leading and trailing whitespace removed.
pub fn trim_bounds(s: &Vec<char>, lo: usize, hi: usize) -> (r: (usize, usize))
    requires
        lo <= hi <= s.len(),
    ensures
        lo <= r.0 <= r.1 <= hi,
        s@.subrange(r.0 as int, r.1 as int) == trim(s@.subrange(lo as int, hi as int)),
{
    let a = skip_space(s, lo, hi);
    let b = skip_space_back(s, a, hi);
    (a, b)
}

/// Relies on `str::chars`, collected into a `Vec`: the characters of `s` in order.
#[verifier::external_body]
pub(crate) fn chars_of(s: &str) -> (r: Vec<char>)
    ensures
        r@ == s@,
{
    s.chars().collect()
}

/// Relies on `String`'s `FromIterator<char>`: the string made of the characters
/// `c[lo..hi]`.
#[verifier::external_body]
pub(crate) fn string_of(c: &Vec<char>, lo: usize, hi: usize) -> (r: String)
    requires
        lo <= hi <= c.len(),
    ensures
        r@ == c@.subrange(lo as int, hi as int),
{
    c[lo..hi].iter().collect()
}

/// Relies on `std::str::from_utf8`: the text that `b` encodes, if it is UTF-8.
#[verifier::external_body]
pub(crate) fn text_of_bytes(b: &[u8]) -> (r: Option<&str>)
    ensures
        r is Some <==> vstd::utf8::valid_utf8(b@),
        r matches Some(t) ==> t@ == vstd::utf8::decode_utf8(b@),
{
    std::str::from_utf8(b).ok()
}

/// A decimal digit.
pub open spec fn is_digit_spec(c: char) -> bool {
    '0' <= c && c <= '9'
}

/// The value of the decimal digit `c`.
pub open spec fn digit_value(c: char) -> nat {
    ((c as u32) - 48) as nat
}

/// The digit character of `d`, for `d < 10`.
pub open spec fn digit_char_spec(d: nat) -> char {
    if d == 0 {
        '0'
    } else if d == 1 {
        '1'
    } else if d == 2 {
        '2'
    } else if d == 3 {
        '3'
    } else if d == 4 {
        '4'
    } else if d == 5 {
        '5'
    } else if d == 6 {
        '6'
    } else if d == 7 {
        '7'
    } else if d == 8 {
        '8'
    } else {
        '9'
    }
}

pub open spec fn all_digits(s: Seq<char>) -> bool {
    forall|i: int| 0 <= i < s.len() ==> is_digit_spec(#[trigger] s[i])
}

/// The number that the digits `s` write in base ten.
pub open spec fn value_of(s: Seq<char>) -> nat
    decreases s.len(),
{
    if s.len() == 0 {
        0
    } else {
        value_of(s.drop_last()) * 10 + digit_value(s.last())
    }
}

/// The shortest decimal writing of `n`.
pub open spec fn decimal(n: nat) -> Seq<char>
    decreases n,
{
    if n < 10 {
        seq![digit_char_spec(n)]
    } else {
        decimal(n / 10).push(digit_char_spec(n % 10))
    }
}

/// `s` writes a number in base ten that fits in a `u64`.
pub open spec fn is_u64_decimal(s: Seq<char>) -> bool {
    s.len() > 0 && all_digits(s) && value_of(s) <= u64::MAX
}

/// The digits of `s`, after an optional leading `'+'`.
pub open spec fn digits_part(s: Seq<char>) -> Seq<char> {
    if s.len() > 0 && s[0] == '+' {
        s.drop_first()
    } else {
        s
    }
}

/// `s` writes a `u64`: an optional `'+'`, then base-ten digits.
pub open spec fn is_u64_text(s: Seq<char>) -> bool {
    is_u64_decimal(digits_part(s))
}

/// The number that `s` writes, for `is_u64_text(s)`.
pub open spec fn u64_value(s: Seq<char>) -> nat {
    value_of(digits_part(s))
}

proof fn lemma_digit_char(d: nat)
    requires
        d < 10,
    ensures
        is_digit_spec(digit_char_spec(d)),
        digit_value(digit_char_spec(d)) == d,
{
}

/// The decimal writing of `n` is made of digits and reads back as `n`.
pub proof fn lemma_decimal_reads_back(n: nat)
    ensures
        decimal(n).len() > 0,
        all_digits(decimal(n)),
        value_of(decimal(n)) == n,
    decreases n,
{
    if n < 10 {
        lemma_digit_char(n);
        assert(decimal(n).drop_last() == Seq::<char>::empty());
        assert(value_of(decimal(n)) == value_of(Seq::<char>::empty()) * 10 + digit_value(decimal(n).last()));
        assert(value_of(decimal(n)) == n);
    } else {
        lemma_decimal_reads_back(n / 10);
        lemma_digit_char(n % 10);
        assert(decimal(n).drop_last() == decimal(n / 10));
        assert((n / 10) * 10 + n % 10 == n) by (nonlinear_arith);
        assert(value_of(decimal(n)) == value_of(decimal(n / 10)) * 10 + digit_value(decimal(n).last()));
        assert(value_of(decimal(n)) == n);
    }
}

proof fn lemma_value_grows(s: Seq<char>, k: int)
    requires
        0 <= k <= s.len(),
    ensures
        value_of(s.subrange(0, k)) <= value_of(s),
    decreases s.len(),
{
    if k < s.len() {
        assert(s.drop_last().subrange(0, k) == s.subrange(0, k));
        lemma_value_grows(s.drop_last(), k);
    } else {
        assert(s.subrange(0, k) == s);
    }
}

pub fn digit_char(d: u64) -> (c: char)
    requires
        d < 10,
    ensures
        c == digit_char_spec(d as nat),
{
    if d == 0 {
        '0'
    } else if d == 1 {
        '1'
    } else if d == 2 {
        '2'
    } else if d == 3 {
        '3'
    } else if d == 4 {
        '4'
    } else if d == 5 {
        '5'
    } else if d == 6 {
        '6'
    } else if d == 7 {
        '7'
    } else if d == 8 {
        '8'
    } else {
        '9'
    }
}

/// The decimal digits of `n`.
pub fn format_decimal(n: u64) -> (r: Vec<char>)
    ensures
        r@ == decimal(n as nat),
    decreases n,
{
    if n < 10 {
        vec![digit_char(n)]
    } else {
        let mut v = format_decimal(n / 10);
        v.push(digit_char(n % 10));
        v
    }
}

/// The `u64` that `s[lo..hi]` writes: an optional `'+'`, then digits.
pub fn parse_decimal(s: &Vec<char>, lo: usize, hi: usize) -> (r: Option<u64>)
    requires
        lo <= hi <= s.len(),
    ensures
        r is Some <==> is_u64_text(s@.subrange(lo as int, hi as int)),
        r matches Some(v) ==> v == u64_value(s@.subrange(lo as int, hi as int)),
{
    if lo < hi && s[lo] == '+' {
        assert(s@.subrange(lo as int, hi as int).drop_first() == s@.subrange(lo + 1, hi as int));
        parse_digits(s, lo + 1, hi)
    } else {
        parse_digits(s, lo, hi)
    }
}

/// The number that `s[lo..hi]` writes in base ten, if it is one that fits in a `u64`.
pub fn parse_digits(s: &Vec<char>, lo: usize, hi: usize) -> (r: Option<u64>)
    requires
        lo <= hi <= s.len(),
    ensures
        r is Some <==> is_u64_decimal(s@.subrange(lo as int, hi as int)),
        r matches Some(v) ==> v == value_of(s@.subrange(lo as int, hi as int)),
{
    let ghost whole = s@.subrange(lo as int, hi as int);
    if lo == hi {
        return None;
    }
    let mut acc: u64 = 0;
    let mut i: usize = lo;
    while i < hi
        invariant
            lo <= i <= hi <= s.len(),
            whole == s@.subrange(lo as int, hi as int),
            all_digits(s@.subrange(lo as int, i as int)),
            acc == value_of(s@.subrange(lo as int, i as int)),
        decreases hi - i,
    {
        let c = s[i];
        if !('0' <= c && c <= '9') {
            assert(whole[i - lo] == c);
            return None;
        }
        let d = (c as u32 - 48) as u64;
        proof {
            let p = s@.subrange(lo as int, i + 1);
            assert(p.drop_last() == s@.subrange(lo as int, i as int));
            assert(p == whole.subrange(0, i + 1 - lo));
            lemma_value_grows(whole, i + 1 - lo);
        }
        match acc.checked_mul(10) {
            Some(m) => match m.checked_add(d) {
                Some(v) => {
                    acc = v;
                },
                None => {
                    return None;
                },
            },
            None => {
                return None;
            },
        }
        i = i + 1;
    }
    assert(s@.subrange(lo as int, i as int) == whole);
    Some(acc)
}

/// The index of the first `c` in `s`, or its length.
pub open spec fn index_of(s: Seq<char>, c: char) -> nat
    decreases s.len(),
{
    if s.len() == 0 || s[0] == c {
        0
    } else {
        1 + index_of(s.drop_first(), c)
    }
}

/// The parts of `s` between the occurrences of `c`: one more than there are `c`.
pub open spec fn split_on(s: Seq<char>, c: char) -> Seq<Seq<char>>
    decreases s.len(),
{
    let k = index_of(s, c);
    if k < s.len() {
        seq![s.subrange(0, k as int)] + split_on(s.subrange(k as int + 1, s.len() as int), c)
    } else {
        seq![s]
    }
}

/// The parts `fs`, with `c` between each two.
pub open spec fn join_on(fs: Seq<Seq<char>>, c: char) -> Seq<char>
    decreases fs.len(),
{
    if fs.len() <= 1 {
        if fs.len() == 0 {
            Seq::empty()
        } else {
            fs[0]
        }
    } else {
        fs[0] + seq![c] + join_on(fs.drop_first(), c)
    }
}

pub proof fn lemma_index_of(s: Seq<char>, c: char)
    ensures
        index_of(s, c) <= s.len(),
        index_of(s, c) < s.len() ==> s[index_of(s, c) as int] == c,
        lacks(s.subrange(0, index_of(s, c) as int), c),
    decreases s.len(),
{
    if s.len() > 0 && s[0] != c {
        lemma_index_of(s.drop_first(), c);
        let k = index_of(s, c) as int;
        assert forall|i: int| 0 <= i < k implies #[trigger] s.subrange(0, k)[i] != c by {
            if i > 0 {
                assert(s.subrange(0, k)[i] == s.drop_first().subrange(0, k - 1)[i - 1]);
            }
        }
    }
}

/// Where `a` holds no `c`, the first `c` of `a + [c] + b` follows `a`.
pub proof fn lemma_index_of_after(a: Seq<char>, b: Seq<char>, c: char)
    requires
        lacks(a, c),
    ensures
        index_of(a + seq![c] + b, c) == a.len(),
    decreases a.len(),
{
    let s = a + seq![c] + b;
    if a.len() > 0 {
        assert(s.drop_first() == a.drop_first() + seq![c] + b);
        assert(a[0] != c);
        assert(lacks(a.drop_first(), c)) by {
            assert forall|i: int| 0 <= i < a.len() - 1 implies #[trigger] a.drop_first()[i]
                != c by {
                assert(a.drop_first()[i] == a[i + 1]);
            }
        }
        lemma_index_of_after(a.drop_first(), b, c);
    }
}

/// Where `s` holds no `c`, its first `c` is at its end.
pub proof fn lemma_index_of_none(s: Seq<char>, c: char)
    requires
        lacks(s, c),
    ensures
        index_of(s, c) == s.len(),
{
    lemma_index_of(s, c);
    if index_of(s, c) < s.len() {
        assert(s[index_of(s, c) as int] == c);
    }
}

/// Splitting undoes joining, where no part holds the separator.
pub proof fn lemma_split_join(fs: Seq<Seq<char>>, c: char)
    requires
        fs.len() > 0,
        forall|i: int| 0 <= i < fs.len() ==> lacks(#[trigger] fs[i], c),
    ensures
        split_on(join_on(fs, c), c) == fs,
    decreases fs.len(),
{
    if fs.len() == 1 {
        lemma_index_of_none(fs[0], c);
        assert(fs == seq![fs[0]]);
    } else {
        let rest = join_on(fs.drop_first(), c);
        let s = fs[0] + seq![c] + rest;
        assert(lacks(fs[0], c));
        lemma_index_of_after(fs[0], rest, c);
        assert(s.subrange(0, fs[0].len() as int) == fs[0]);
        assert(s.subrange(fs[0].len() as int + 1, s.len() as int) == rest);
        assert forall|i: int| 0 <= i < fs.len() - 1 implies lacks(
            #[trigger] fs.drop_first()[i],
            c,
        ) by {
            assert(fs.drop_first()[i] == fs[i + 1]);
        }
        lemma_split_join(fs.drop_first(), c);
        assert(seq![fs[0]] + fs.drop_first() == fs);
    }
}

/// The first index at or after `lo` where `v[..n]` holds `c`, or `n`.
pub fn find_char(v: &Vec<char>, lo: usize, n: usize, c: char) -> (r: usize)
    requires
        lo <= n <= v.len(),
    ensures
        lo <= r <= n,
        r - lo == index_of(v@.subrange(lo as int, n as int), c),
{
    let mut i: usize = lo;
    while i < n && v[i] != c
        invariant
            lo <= i <= n <= v.len(),
            index_of(v@.subrange(lo as int, n as int), c) == (i - lo) + index_of(
                v@.subrange(i as int, n as int),
                c,
            ),
        decreases n - i,
    {
        assert(v@.subrange(i as int, n as int).drop_first() == v@.subrange(i + 1, n as int));
        i = i + 1;
    }
    i
}

/// The parts of `v[lo..n]` between the occurrences of `c`.
pub fn split_chars(v: &Vec<char>, lo: usize, n: usize, c: char) -> (r: Vec<String>)
    requires
        lo <= n <= v.len(),
    ensures
        r@.map_values(|x: String| x@) == split_on(v@.subrange(lo as int, n as int), c),
{
    let ghost whole = split_on(v@.subrange(lo as int, n as int), c);
    let mut out: Vec<String> = Vec::new();
    let mut i: usize = lo;
    loop
        invariant
            lo <= i <= n <= v.len(),
            whole == split_on(v@.subrange(lo as int, n as int), c),
            out@.map_values(|x: String| x@) + split_on(v@.subrange(i as int, n as int), c)
                == whole,
        ensures
            out@.map_values(|x: String| x@) == whole,
        decreases n - i,
    {
        let ghost before = out@.map_values(|x: String| x@);
        let j = find_char(v, i, n, c);
        let part = string_of(v, i, j);
        out.push(part);
        assert(out@.map_values(|x: String| x@) == before.push(part@));
        let ghost t = v@.subrange(i as int, n as int);
        assert(t.subrange(0, j - i) == v@.subrange(i as int, j as int));
        if j == n {
            assert(t == v@.subrange(i as int, j as int));
            assert(split_on(t, c) == seq![t]);
            assert(before.push(part@) == before + seq![t]);
            return out;
        }
        assert(t.subrange(j - i + 1, t.len() as int) == v@.subrange(j + 1, n as int));
        assert(before.push(part@) + split_on(v@.subrange(j + 1, n as int), c) == before + (
        seq![part@] + split_on(v@.subrange(j + 1, n as int), c)));
        i = j + 1;
    }
}

/// `t` begins with `w`.
pub open spec fn starts_with(t: Seq<char>, w: Seq<char>) -> bool {
    t.len() >= w.len() && t.subrange(0, w.len() as int) == w
}

/// Whether `v[a..b]` begins with `w`.
pub fn starts_with_at(v: &Vec<char>, a: usize, b: usize, w: &Vec<char>) -> (r: bool)
    requires
        a <= b <= v.len(),
    ensures
        r == starts_with(v@.subrange(a as int, b as int), w@),
{
    let ghost t = v@.subrange(a as int, b as int);
    if b - a < w.len() {
        return false;
    }
    let mut i: usize = 0;
    while i < w.len()
        invariant
            a <= b <= v.len(),
            w.len() <= b - a,
            t == v@.subrange(a as int, b as int),
            i <= w.len(),
            forall|j: int| 0 <= j < i ==> v@[a + j] == w@[j],
        decreases w.len() - i,
    {
        if v[a + i] != w[i] {
            assert(t.subrange(0, w.len() as int)[i as int] != w@[i as int]);
            return false;
        }
        i = i + 1;
    }
    assert(t.subrange(0, w.len() as int) == w@);
    true
}

/// Whether `v[a..b]` is `w`.
pub fn equals_at(v: &Vec<char>, a: usize, b: usize, w: &Vec<char>) -> (r: bool)
    requires
        a <= b <= v.len(),
    ensures
        r == (v@.subrange(a as int, b as int) == w@),
{
    let ghost t = v@.subrange(a as int, b as int);
    if b - a != w.len() {
        return false;
    }
    let r = starts_with_at(v, a, b, w);
    assert(t.subrange(0, t.len() as int) == t);
    r
}

} // verus!
