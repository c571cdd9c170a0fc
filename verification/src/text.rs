//! Character-level helpers: whitespace, trimming, and string building.
use vstd::prelude::*;

verus! {

/// Appends one character to a `String`.
///
/// Wraps `String::push`, whose documentation states that it appends the
/// given `char` to the end of the string; the contract says exactly that.
#[verifier::external_body]
pub(crate) fn push_char(s: &mut String, c: char)
    ensures
        final(s)@ == old(s)@.push(c),
{
    s.push(c);
}

/// The characters of `s`, in order.
pub fn chars_of(s: &str) -> (res: Vec<char>)
    ensures
        res@ == s@,
{
    let mut res: Vec<char> = Vec::new();
    for c in it: s.chars()
        invariant
            res@ == it.seq().take(it.index() as int),
            it.seq() == s@,
    {
        res.push(c);
    }
    res
}

/// Unicode `White_Space`, the whitespace of `char::is_whitespace` and `str::trim`.
pub open spec fn spec_is_whitespace(c: char) -> bool {
    ||| ('\u{9}' <= c && c <= '\u{d}')
    ||| c == ' '
    ||| c == '\u{85}'
    ||| c == '\u{a0}'
    ||| c == '\u{1680}'
    ||| ('\u{2000}' <= c && c <= '\u{200a}')
    ||| c == '\u{2028}'
    ||| c == '\u{2029}'
    ||| c == '\u{202f}'
    ||| c == '\u{205f}'
    ||| c == '\u{3000}'
}

/// Whether `c` is Unicode whitespace.
pub fn is_whitespace(c: char) -> (res: bool)
    ensures
        res == spec_is_whitespace(c),
{
    ('\u{9}' <= c && c <= '\u{d}') || c == ' ' || c == '\u{85}' || c == '\u{a0}'
        || c == '\u{1680}' || ('\u{2000}' <= c && c <= '\u{200a}') || c == '\u{2028}'
        || c == '\u{2029}' || c == '\u{202f}' || c == '\u{205f}' || c == '\u{3000}'
}

/// `s` without its leading whitespace.
pub open spec fn trim_start(s: Seq<char>) -> Seq<char>
    decreases s.len(),
{
    if s.len() > 0 && spec_is_whitespace(s[0]) {
        trim_start(s.drop_first())
    } else {
        s
    }
}

/// `s` without its trailing whitespace.
pub open spec fn trim_end(s: Seq<char>) -> Seq<char>
    decreases s.len(),
{
    if s.len() > 0 && spec_is_whitespace(s.last()) {
        trim_end(s.drop_last())
    } else {
        s
    }
}

/// `s` without leading and trailing whitespace, as `str::trim` gives it.
pub open spec fn trim(s: Seq<char>) -> Seq<char> {
    trim_end(trim_start(s))
}

/// On ASCII characters, whitespace is exactly the space and the control
/// characters from tab to carriage return; in particular no printable ASCII
/// character other than the space (such as `#`) is whitespace.
pub proof fn lemma_ascii_whitespace(c: char)
    requires
        (c as u32) < 128,
    ensures
        spec_is_whitespace(c) <==> (c == ' ' || ('\t' <= c && c <= '\r')),
{
}

/// Trimming removes leading whitespace up to the first other character.
proof fn lemma_trim_start_after_whitespace(indent: Seq<char>, s: Seq<char>)
    requires
        forall|i: int| 0 <= i < indent.len() ==> spec_is_whitespace(#[trigger] indent[i]),
        s.len() > 0,
        !spec_is_whitespace(s[0]),
    ensures
        trim_start(indent + s) == s,
    decreases indent.len(),
{
    if indent.len() == 0 {
        assert(indent + s =~= s);
    } else {
        assert((indent + s).drop_first() =~= indent.drop_first() + s);
        assert((indent + s)[0] == indent[0]);
        lemma_trim_start_after_whitespace(indent.drop_first(), s);
    }
}

/// Trimming the end of a text that starts with a non-whitespace character
/// keeps that character first.
proof fn lemma_trim_end_keeps_first(s: Seq<char>)
    requires
        s.len() > 0,
        !spec_is_whitespace(s[0]),
    ensures
        trim_end(s).len() > 0,
        trim_end(s)[0] == s[0],
    decreases s.len(),
{
    if s.len() > 1 && spec_is_whitespace(s.last()) {
        assert(s.drop_last()[0] == s[0]);
        lemma_trim_end_keeps_first(s.drop_last());
    }
}

/// Trimming a line that is some whitespace and then a non-whitespace
/// character gives a text that starts with that character.
pub proof fn lemma_trim_first_character(indent: Seq<char>, s: Seq<char>)
    requires
        forall|i: int| 0 <= i < indent.len() ==> spec_is_whitespace(#[trigger] indent[i]),
        s.len() > 0,
        !spec_is_whitespace(s[0]),
    ensures
        trim(indent + s).len() > 0,
        trim(indent + s)[0] == s[0],
{
    lemma_trim_start_after_whitespace(indent, s);
    lemma_trim_end_keeps_first(s);
}

/// `x` occurs in `s` as a contiguous piece.
pub open spec fn has_infix(s: Seq<char>, x: Seq<char>) -> bool {
    exists|i: int| 0 <= i <= s.len() - x.len() && #[trigger] s.subrange(i, i + x.len()) == x
}

/// A piece between two others occurs in their concatenation.
pub proof fn lemma_infix(a: Seq<char>, x: Seq<char>, b: Seq<char>)
    ensures
        has_infix(a + x + b, x),
{
    let s = a + x + b;
    assert(s.subrange(a.len() as int, a.len() + x.len() as int) =~= x);
}

/// A piece of a text is a piece of any longer text that starts with it.
pub proof fn lemma_infix_extend(s: Seq<char>, x: Seq<char>, b: Seq<char>)
    requires
        has_infix(s, x),
    ensures
        has_infix(s + b, x),
{
    let i = choose|i: int| 0 <= i <= s.len() - x.len() && #[trigger] s.subrange(i, i + x.len()) == x;
    assert((s + b).subrange(i, i + x.len()) =~= s.subrange(i, i + x.len()));
}

/// Three pieces at the end of a text form a piece of it.
pub proof fn lemma_infix_last3(p: Seq<char>, a: Seq<char>, b: Seq<char>, c: Seq<char>)
    ensures
        has_infix(p + a + b + c, a + b + c),
{
    let s = p + a + b + c;
    let x = a + b + c;
    assert(s.subrange(p.len() as int, p.len() + x.len() as int) =~= x);
}

/// A prefix of a text is a prefix of any longer text that starts with it.
pub proof fn lemma_prefix_extend(x: Seq<char>, s: Seq<char>, b: Seq<char>)
    requires
        x.is_prefix_of(s),
    ensures
        x.is_prefix_of(s + b),
{
    assert((s + b).subrange(0, x.len() as int) =~= s.subrange(0, x.len() as int));
}

/// The bounds of `chars[lo..hi]` once trimmed.
pub(crate) fn trim_range(chars: &Vec<char>, lo: usize, hi: usize) -> (res: (usize, usize))
    requires
        lo <= hi <= chars@.len(),
    ensures
        lo <= res.0 <= res.1 <= hi,
        chars@.subrange(res.0 as int, res.1 as int) == trim(chars@.subrange(lo as int, hi as int)),
{
    let mut a = lo;
    while a < hi && is_whitespace(chars[a])
        invariant
            lo <= a <= hi <= chars@.len(),
            trim_start(chars@.subrange(lo as int, hi as int)) == trim_start(
                chars@.subrange(a as int, hi as int),
            ),
        decreases hi - a,
    {
        assert(chars@.subrange(a as int, hi as int).drop_first() =~= chars@.subrange(
            a + 1,
            hi as int,
        ));
        a = a + 1;
    }
    let mut b = hi;
    while b > a && is_whitespace(chars[b - 1])
        invariant
            lo <= a <= b <= hi <= chars@.len(),
            trim_end(chars@.subrange(a as int, hi as int)) == trim_end(
                chars@.subrange(a as int, b as int),
            ),
        decreases b - a,
    {
        assert(chars@.subrange(a as int, b as int).drop_last() =~= chars@.subrange(
            a as int,
            b - 1,
        ));
        b = b - 1;
    }
    (a, b)
}

/// A new `String` holding `chars[lo..hi]`.
pub(crate) fn string_from_chars(chars: &Vec<char>, lo: usize, hi: usize) -> (res: String)
    requires
        lo <= hi <= chars@.len(),
    ensures
        res@ == chars@.subrange(lo as int, hi as int),
{
    let mut out = String::new();
    let mut i = lo;
    while i < hi
        invariant
            lo <= i <= hi <= chars@.len(),
            out@ == chars@.subrange(lo as int, i as int),
        decreases hi - i,
    {
        push_char(&mut out, chars[i]);
        assert(chars@.subrange(lo as int, i + 1) =~= chars@.subrange(lo as int, i as int).push(
            chars@[i as int],
        ));
        i = i + 1;
    }
    out
}

/// The first position in `chars[lo..hi]` that holds `c`, or `hi` if none does.
pub(crate) fn find_first(chars: &Vec<char>, c: char, lo: usize, hi: usize) -> (res: usize)
    requires
        lo <= hi <= chars@.len(),
    ensures
        lo <= res <= hi,
        forall|j: int| lo <= j < res ==> chars@[j] != c,
        res < hi ==> chars@[res as int] == c,
{
    let mut i = lo;
    while i < hi && chars[i] != c
        invariant
            lo <= i <= hi <= chars@.len(),
            forall|j: int| lo <= j < i ==> chars@[j] != c,
        decreases hi - i,
    {
        i = i + 1;
    }
    i
}

/// The last position in `chars[lo..hi]` that holds `c`, if any.
pub(crate) fn find_last(chars: &Vec<char>, c: char, lo: usize, hi: usize) -> (res: Option<usize>)
    requires
        lo <= hi <= chars@.len(),
    ensures
        match res {
            Some(k) => lo <= k < hi && chars@[k as int] == c && forall|j: int|
                k < j < hi ==> chars@[j] != c,
            None => forall|j: int| lo <= j < hi ==> chars@[j] != c,
        },
{
    let mut i = hi;
    while i > lo
        invariant
            lo <= i <= hi <= chars@.len(),
            forall|j: int| i <= j < hi ==> chars@[j] != c,
        decreases i - lo,
    {
        if chars[i - 1] == c {
            return Some(i - 1);
        }
        i = i - 1;
    }
    None
}

/// The first index of `c` in `s` is `k` exactly when `s[k]` is `c` and no
/// earlier character is.
pub proof fn lemma_first_index(s: Seq<char>, c: char, k: int)
    requires
        0 <= k <= s.len(),
        forall|j: int| 0 <= j < k ==> s[j] != c,
        k < s.len() ==> s[k] == c,
    ensures
        s.index_of_first(c) == (if k < s.len() { Some(k) } else { None::<int> }),
{
    s.index_of_first_ensures(c);
}

/// The last index of `c` in `s` is `k` exactly when `s[k]` is `c` and no
/// later character is.
pub proof fn lemma_last_index(s: Seq<char>, c: char, k: Option<int>)
    requires
        match k {
            Some(k) => 0 <= k < s.len() && s[k] == c && forall|j: int| k < j < s.len() ==> s[j] != c,
            None => forall|j: int| 0 <= j < s.len() ==> s[j] != c,
        },
    ensures
        s.index_of_last(c) == k,
{
    s.index_of_last_ensures(c);
}

} // verus!
