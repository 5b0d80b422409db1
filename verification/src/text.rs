//! Strings as sequences of characters: trimming, searching, splitting and
//! comparing, each with its meaning written over `Seq<char>`.

use vstd::prelude::*;
use vstd::string::*;
use vstd::utf8::*;

verus! {

/// Whether `c` is white space: the code points that carry Unicode's
/// `White_Space` property.
pub open spec fn is_white_space(c: char) -> bool {
    let n = c as u32;
    ||| 0x09 <= n <= 0x0D
    ||| n == 0x20
    ||| n == 0x85
    ||| n == 0xA0
    ||| n == 0x1680
    ||| 0x2000 <= n <= 0x200A
    ||| n == 0x2028
    ||| n == 0x2029
    ||| n == 0x202F
    ||| n == 0x205F
    ||| n == 0x3000
}

/// A list of strings, each as its sequence of characters.
pub open spec fn texts(strings: Seq<String>) -> Seq<Seq<char>> {
    Seq::new(strings.len(), |i: int| strings[i]@)
}

/// A string that may be missing, as its sequence of characters.
pub open spec fn text_or_none(string: Option<String>) -> Option<Seq<char>> {
    match string {
        Some(s) => Some(s@),
        None => None,
    }
}

/// Whether every character of `s` is plain ASCII.
pub open spec fn is_ascii(s: Seq<char>) -> bool {
    forall|i: int| 0 <= i < s.len() ==> (#[trigger] s[i]) as u32 <= 0x7F
}

/// How many characters of white space `s` opens with.
pub open spec fn leading_white(s: Seq<char>) -> nat
    decreases s.len(),
{
    if s.len() > 0 && is_white_space(s[0]) {
        1 + leading_white(s.drop_first())
    } else {
        0
    }
}

/// How many characters of white space `s` ends with.
pub open spec fn trailing_white(s: Seq<char>) -> nat
    decreases s.len(),
{
    if s.len() > 0 && is_white_space(s.last()) {
        1 + trailing_white(s.drop_last())
    } else {
        0
    }
}

/// `s` without the white space it opens with.
pub open spec fn trimmed_start(s: Seq<char>) -> Seq<char> {
    s.skip(leading_white(s) as int)
}

/// `s` without the white space at either end.
pub open spec fn trimmed(s: Seq<char>) -> Seq<char> {
    let rest = trimmed_start(s);
    rest.take(rest.len() - trailing_white(rest))
}

/// Whether `s` is empty or white space throughout.
pub open spec fn is_blank(s: Seq<char>) -> bool {
    forall|i: int| 0 <= i < s.len() ==> is_white_space(#[trigger] s[i])
}

/// Where `c` first stands in `s`; the length of `s` where it does not occur.
pub open spec fn position(s: Seq<char>, c: char) -> nat
    decreases s.len(),
{
    if s.len() == 0 || s[0] == c {
        0
    } else {
        1 + position(s.drop_first(), c)
    }
}

/// The pieces of `s` between occurrences of `sep`. There is always at least
/// one piece, and a separator at either end leaves an empty piece there.
pub open spec fn split(s: Seq<char>, sep: char) -> Seq<Seq<char>>
    decreases s.len(),
{
    let at = position(s, sep);
    if at < s.len() {
        seq![s.take(at as int)] + split(s.skip(at as int + 1), sep)
    } else {
        seq![s]
    }
}

/// `leading_white` is the first index that holds no white space.
proof fn lemma_leading_white(s: Seq<char>, a: int)
    requires
        0 <= a <= s.len(),
        forall|j: int| 0 <= j < a ==> is_white_space(#[trigger] s[j]),
        a < s.len() ==> !is_white_space(s[a]),
    ensures
        leading_white(s) == a,
    decreases s.len(),
{
    if s.len() > 0 && is_white_space(s[0]) {
        let t = s.drop_first();
        assert forall|j: int| 0 <= j < a - 1 implies is_white_space(#[trigger] t[j]) by {}
        lemma_leading_white(t, a - 1);
    }
}

/// `trailing_white` counts back to the last index that holds no white space.
proof fn lemma_trailing_white(s: Seq<char>, b: int)
    requires
        0 <= b <= s.len(),
        forall|j: int| b <= j < s.len() ==> is_white_space(#[trigger] s[j]),
        b > 0 ==> !is_white_space(s[b - 1]),
    ensures
        trailing_white(s) == s.len() - b,
    decreases s.len(),
{
    if s.len() > 0 && is_white_space(s.last()) {
        lemma_trailing_white(s.drop_last(), b);
    }
}

/// `position` is the first index that holds `c`.
proof fn lemma_position(s: Seq<char>, c: char, i: int)
    requires
        0 <= i <= s.len(),
        forall|j: int| 0 <= j < i ==> #[trigger] s[j] != c,
        i < s.len() ==> s[i] == c,
    ensures
        position(s, c) == i,
    decreases s.len(),
{
    if s.len() > 0 && s[0] != c {
        let t = s.drop_first();
        assert forall|j: int| 0 <= j < i - 1 implies #[trigger] t[j] != c by {}
        lemma_position(t, c, i - 1);
    }
}

/// A string is blank exactly when trimming leaves nothing of it.
pub proof fn blank_iff_trimmed_empty(s: Seq<char>)
    ensures
        is_blank(s) <==> trimmed(s).len() == 0,
{
    lemma_leading_white_bounds(s);
    let a = leading_white(s) as int;
    let rest = trimmed_start(s);
    lemma_trailing_white_bounds(rest);
    if is_blank(s) {
        assert(a == s.len());
    } else {
        let i = choose|i: int| 0 <= i < s.len() && !is_white_space(#[trigger] s[i]);
        assert(a <= i);
        if trailing_white(rest) == rest.len() {
            assert(is_white_space(rest[0]));
        }
    }
}

/// What `leading_white` counts is white space, and what follows is not.
proof fn lemma_leading_white_bounds(s: Seq<char>)
    ensures
        leading_white(s) <= s.len(),
        forall|j: int| 0 <= j < leading_white(s) ==> is_white_space(#[trigger] s[j]),
        leading_white(s) < s.len() ==> !is_white_space(s[leading_white(s) as int]),
    decreases s.len(),
{
    if s.len() > 0 && is_white_space(s[0]) {
        let t = s.drop_first();
        lemma_leading_white_bounds(t);
        assert forall|j: int| 0 <= j < leading_white(s) implies is_white_space(#[trigger] s[j]) by {
            if j > 0 {
                assert(s[j] == t[j - 1]);
            }
        }
    }
}

/// What `trailing_white` counts is white space, and what comes before is not.
proof fn lemma_trailing_white_bounds(s: Seq<char>)
    ensures
        trailing_white(s) <= s.len(),
        forall|j: int| s.len() - trailing_white(s) <= j < s.len() ==> is_white_space(#[trigger] s[j]),
        trailing_white(s) < s.len() ==> !is_white_space(s[s.len() - trailing_white(s) - 1]),
    decreases s.len(),
{
    if s.len() > 0 && is_white_space(s.last()) {
        let t = s.drop_last();
        lemma_trailing_white_bounds(t);
        assert forall|j: int| s.len() - trailing_white(s) <= j < s.len() implies is_white_space(
            #[trigger] s[j],
        ) by {
            if j < s.len() - 1 {
                assert(s[j] == t[j]);
            }
        }
    }
}

/// Where trimming cuts: the white space a string opens with ends where what
/// is kept begins, and nothing but white space lies outside what is kept.
pub proof fn lemma_trimmed_bounds(s: Seq<char>)
    ensures
        leading_white(s) + trimmed(s).len() <= s.len(),
        trimmed(s) == s.subrange(
            leading_white(s) as int,
            (leading_white(s) + trimmed(s).len()) as int,
        ),
        forall|i: int| 0 <= i < leading_white(s) ==> is_white_space(#[trigger] s[i]),
        forall|i: int|
            leading_white(s) + trimmed(s).len() <= i < s.len() ==> is_white_space(#[trigger] s[i]),
{
    lemma_leading_white_bounds(s);
    let a = leading_white(s) as int;
    let rest = trimmed_start(s);
    lemma_trailing_white_bounds(rest);
    assert(trimmed(s) =~= s.subrange(a, a + trimmed(s).len()));
    assert forall|i: int| a + trimmed(s).len() <= i < s.len() implies is_white_space(
        #[trigger] s[i],
    ) by {
        assert(s[i] == rest[i - a]);
    }
}

/// `position` never runs past the end; nothing before it is `c`, and what
/// stands at it is.
pub proof fn lemma_position_bounds(s: Seq<char>, c: char)
    ensures
        position(s, c) <= s.len(),
        forall|k: int| 0 <= k < position(s, c) ==> #[trigger] s[k] != c,
        position(s, c) < s.len() ==> s[position(s, c) as int] == c,
    decreases s.len(),
{
    if s.len() > 0 && s[0] != c {
        let t = s.drop_first();
        lemma_position_bounds(t, c);
        assert forall|k: int| 0 <= k < position(s, c) implies #[trigger] s[k] != c by {
            if k > 0 {
                assert(s[k] == t[k - 1]);
            }
        }
    }
}

/// How `split` proceeds: the first piece ends at the first separator, and
/// the other pieces are those of what follows it. Without a separator the
/// string is its own single piece.
pub proof fn lemma_split_step(s: Seq<char>, sep: char)
    ensures
        split(s, sep).len() >= 1,
        split(s, sep)[0] == s.take(position(s, sep) as int),
        position(s, sep) < s.len() ==> split(s, sep).len() >= 2 && split(s, sep).drop_first()
            == split(s.skip(position(s, sep) as int + 1), sep),
        position(s, sep) >= s.len() ==> split(s, sep) == seq![s],
{
    lemma_position_bounds(s, sep);
    let at = position(s, sep) as int;
    if at < s.len() {
        let rest = split(s.skip(at + 1), sep);
        assert(rest.len() >= 1);
        assert(split(s, sep) =~= seq![s.take(at)] + rest);
        assert(split(s, sep).drop_first() =~= rest);
    } else {
        assert(s.take(at) =~= s);
    }
}

/// Whether `c` is white space.
pub fn white_space(c: char) -> (r: bool)
    ensures
        r == is_white_space(c),
{
    let n: u32 = c as u32;
    (0x09 <= n && n <= 0x0D) || n == 0x20 || n == 0x85 || n == 0xA0 || n == 0x1680 || (0x2000 <= n
        && n <= 0x200A) || n == 0x2028 || n == 0x2029 || n == 0x202F || n == 0x205F || n == 0x3000
}

/// The characters of `s`, one by one.
pub fn chars_of(s: &str) -> (v: Vec<char>)
    ensures
        v@ == s@,
{
    let mut v: Vec<char> = Vec::new();
    for c in it: s.chars()
        invariant
            v@ == it.seq().take(it.index() as int),
    {
        v.push(c);
    }
    v
}

/// Whether two strings hold the same characters.
pub fn str_eq(a: &str, b: &str) -> (r: bool)
    ensures
        r == (a@ == b@),
{
    let x = a.as_bytes();
    let y = b.as_bytes();
    proof {
        encode_utf8_decode_utf8(a@);
        encode_utf8_decode_utf8(b@);
    }
    if x.len() != y.len() {
        return false;
    }
    let n: usize = x.len();
    let mut i: usize = 0;
    while i < n
        invariant
            n == x@.len(),
            n == y@.len(),
            i <= n,
            x@ == encode_utf8(a@),
            y@ == encode_utf8(b@),
            forall|k: int| 0 <= k < i ==> x@[k] == y@[k],
        decreases n - i,
    {
        if x[i] != y[i] {
            return false;
        }
        i = i + 1;
    }
    assert(x@ =~= y@);
    true
}

/// Whether `s` is empty or white space throughout.
pub fn blank(s: &str) -> (r: bool)
    ensures
        r == is_blank(s@),
        r == (trimmed(s@).len() == 0),
{
    proof {
        blank_iff_trimmed_empty(s@);
    }
    let chars = chars_of(s);
    let mut i: usize = 0;
    while i < chars.len()
        invariant
            i <= chars.len(),
            chars@ == s@,
            is_blank(s@) <==> trimmed(s@).len() == 0,
            forall|j: int| 0 <= j < i ==> is_white_space(#[trigger] chars@[j]),
        decreases chars.len() - i,
    {
        if !white_space(chars[i]) {
            return false;
        }
        i = i + 1;
    }
    true
}

/// Whether the characters of `chars` from `lo` up to `hi` spell `word`.
pub fn range_is(chars: &Vec<char>, lo: usize, hi: usize, word: &str) -> (r: bool)
    requires
        lo <= hi <= chars.len(),
    ensures
        r == (chars@.subrange(lo as int, hi as int) == word@),
{
    let w = chars_of(word);
    let ghost part = chars@.subrange(lo as int, hi as int);
    if w.len() != hi - lo {
        return false;
    }
    let mut i: usize = 0;
    while i < w.len()
        invariant
            lo <= hi <= chars.len(),
            w.len() == hi - lo,
            w@ == word@,
            i <= w.len(),
            part == chars@.subrange(lo as int, hi as int),
            forall|k: int| 0 <= k < i ==> part[k] == w@[k],
        decreases w.len() - i,
    {
        if chars[lo + i] != w[i] {
            return false;
        }
        i = i + 1;
    }
    assert(part =~= w@);
    true
}

/// The range left of `lo..hi` once the white space at either end is dropped.
pub fn trim_range(chars: &Vec<char>, lo: usize, hi: usize) -> (r: (usize, usize))
    requires
        lo <= hi <= chars.len(),
    ensures
        lo <= r.0 <= r.1 <= hi,
        chars@.subrange(r.0 as int, r.1 as int) == trimmed(chars@.subrange(lo as int, hi as int)),
{
    let ghost part = chars@.subrange(lo as int, hi as int);
    let mut a: usize = lo;
    while a < hi && white_space(chars[a])
        invariant
            lo <= a <= hi <= chars.len(),
            part == chars@.subrange(lo as int, hi as int),
            forall|j: int| 0 <= j < a - lo ==> is_white_space(#[trigger] part[j]),
        decreases hi - a,
    {
        a = a + 1;
    }
    proof {
        lemma_leading_white(part, a - lo);
    }
    let ghost rest = trimmed_start(part);
    let mut b: usize = hi;
    while b > a && white_space(chars[b - 1])
        invariant
            a <= b <= hi <= chars.len(),
            rest == chars@.subrange(a as int, hi as int),
            forall|j: int| b - a <= j < hi - a ==> is_white_space(#[trigger] rest[j]),
        decreases b - a,
    {
        b = b - 1;
    }
    proof {
        lemma_trailing_white(rest, b - a);
    }
    (a, b)
}

/// Where `c` first stands in `lo..hi`, or `hi` where it does not occur there.
pub fn find_in_range(chars: &Vec<char>, lo: usize, hi: usize, c: char) -> (at: usize)
    requires
        lo <= hi <= chars.len(),
    ensures
        lo <= at <= hi,
        at == lo + position(chars@.subrange(lo as int, hi as int), c),
{
    let ghost part = chars@.subrange(lo as int, hi as int);
    let mut i: usize = lo;
    while i < hi && chars[i] != c
        invariant
            lo <= i <= hi <= chars.len(),
            part == chars@.subrange(lo as int, hi as int),
            forall|j: int| 0 <= j < i - lo ==> #[trigger] part[j] != c,
        decreases hi - i,
    {
        i = i + 1;
    }
    proof {
        lemma_position(part, c, i - lo);
    }
    i
}

/// Whether `ranges` cut `s` into the pieces that `split` gives.
pub open spec fn ranges_split(ranges: Seq<(usize, usize)>, s: Seq<char>, sep: char) -> bool {
    &&& ranges.len() == split(s, sep).len()
    &&& forall|k: int|
        0 <= k < ranges.len() ==> {
            &&& (#[trigger] ranges[k]).0 <= ranges[k].1 <= s.len()
            &&& s.subrange(ranges[k].0 as int, ranges[k].1 as int) == split(s, sep)[k]
        }
}

/// The ranges of `chars` that lie between occurrences of `sep`.
pub fn split_ranges(chars: &Vec<char>, sep: char) -> (ranges: Vec<(usize, usize)>)
    ensures
        ranges_split(ranges@, chars@, sep),
{
    let n: usize = chars.len();
    let mut ranges: Vec<(usize, usize)> = Vec::new();
    let mut start: usize = 0;
    proof {
        assert(chars@.skip(0) =~= chars@);
    }
    loop
        invariant_except_break
            start <= n,
            n == chars.len(),
            split(chars@, sep) == ranges@.map_values(
                |r: (usize, usize)| chars@.subrange(r.0 as int, r.1 as int),
            ) + split(chars@.skip(start as int), sep),
            forall|k: int| 0 <= k < ranges.len() ==> (#[trigger] ranges[k]).0 <= ranges[k].1 <= n,
        ensures
            ranges_split(ranges@, chars@, sep),
        decreases n - start,
    {
        let ghost rest = chars@.skip(start as int);
        let at = find_in_range(chars, start, n, sep);
        ranges.push((start, at));
        if at < n {
            assert(rest.take(at - start) =~= chars@.subrange(start as int, at as int));
            assert(rest.skip(at - start + 1) =~= chars@.skip(at + 1));
            start = at + 1;
        } else {
            break;
        }
    }
    ranges
}

} // verus!
