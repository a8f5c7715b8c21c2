//! Character-level helpers shared by the path and git modules.
//!
//! Strings are modelled by their sequence of characters (`Seq<char>`). The
//! executable functions scan a `Vec<char>` by index and build their results
//! character by character.

use vstd::prelude::*;

verus! {

/// Whether `c` is white space: the code points with the Unicode property
/// `White_Space`.
pub open spec fn is_space(c: char) -> bool {
    let n = c as u32;
    ||| 0x09 <= n <= 0x0D
    ||| n == 0x20
    ||| n == 0x85
    ||| n == 0xA0
    ||| n == 0x1680
    ||| 0x2000 <= n <= 0x200A
    ||| n == 0x2028
    ||| n == 0x2029
    ||| n == 0x202F
    ||| n == 0x205F
    ||| n == 0x3000
}

/// `s` without its leading white space.
pub open spec fn trim_start(s: Seq<char>) -> Seq<char>
    decreases s.len(),
{
    if s.len() > 0 && is_space(s[0]) {
        trim_start(s.skip(1))
    } else {
        s
    }
}

/// `s` without its trailing white space.
pub open spec fn trim_end(s: Seq<char>) -> Seq<char>
    decreases s.len(),
{
    if s.len() > 0 && is_space(s.last()) {
        trim_end(s.drop_last())
    } else {
        s
    }
}

/// `s` without leading and trailing white space.
pub open spec fn trimmed(s: Seq<char>) -> Seq<char> {
    trim_end(trim_start(s))
}

/// How many characters of white space `s` begins with.
pub open spec fn leading_spaces(s: Seq<char>) -> nat
    decreases s.len(),
{
    if s.len() > 0 && is_space(s[0]) {
        1 + leading_spaces(s.skip(1))
    } else {
        0
    }
}

/// How many characters of white space `s` ends with.
pub open spec fn trailing_spaces(s: Seq<char>) -> nat
    decreases s.len(),
{
    if s.len() > 0 && is_space(s.last()) {
        1 + trailing_spaces(s.drop_last())
    } else {
        0
    }
}

/// The index of the first `c` in `s`, or `s.len()` where `s` holds none.
pub open spec fn position_of(s: Seq<char>, c: char) -> nat
    decreases s.len(),
{
    if s.len() == 0 || s[0] == c {
        0
    } else {
        1 + position_of(s.skip(1), c)
    }
}

/// The parts joined into one text, with `sep` between neighbours.
pub open spec fn joined(parts: Seq<Seq<char>>, sep: char) -> Seq<char>
    decreases parts.len(),
{
    if parts.len() == 0 {
        Seq::empty()
    } else if parts.len() == 1 {
        parts[0]
    } else {
        joined(parts.drop_last(), sep) + seq![sep] + parts.last()
    }
}

/// Whether `s` holds nothing but white space.
pub open spec fn is_blank(s: Seq<char>) -> bool {
    forall|i: int| 0 <= i < s.len() ==> is_space(#[trigger] s[i])
}

/// The first `i` characters are white space and the next one, if any, is
/// not: trimming the start removes exactly those `i`.
pub proof fn lemma_trim_start(s: Seq<char>, i: int)
    requires
        0 <= i <= s.len(),
        forall|j: int| 0 <= j < i ==> is_space(s[j]),
        i < s.len() ==> !is_space(s[i]),
    ensures
        trim_start(s) == s.skip(i),
    decreases i,
{
    if i > 0 {
        lemma_trim_start(s.skip(1), i - 1);
    }
}

/// Everything from index `i` on is white space and the character before
/// it, if any, is not: trimming the end keeps exactly the first `i`.
pub proof fn lemma_trim_end(s: Seq<char>, i: int)
    requires
        0 <= i <= s.len(),
        forall|j: int| i <= j < s.len() ==> is_space(s[j]),
        i > 0 ==> !is_space(s[i - 1]),
    ensures
        trim_end(s) == s.take(i),
    decreases s.len() - i,
{
    if i < s.len() {
        lemma_trim_end(s.drop_last(), i);
    }
}

/// The leading white space lies within the text and ends before a
/// character that is none.
pub proof fn lemma_leading_spaces(s: Seq<char>)
    ensures
        leading_spaces(s) <= s.len(),
        forall|j: int| 0 <= j < leading_spaces(s) ==> is_space(#[trigger] s[j]),
        leading_spaces(s) < s.len() ==> !is_space(s[leading_spaces(s) as int]),
        is_blank(s.take(leading_spaces(s) as int)),
    decreases s.len(),
{
    if s.len() > 0 && is_space(s[0]) {
        let rest = s.skip(1);
        lemma_leading_spaces(rest);
        assert forall|j: int| 0 <= j < leading_spaces(s) implies is_space(#[trigger] s[j]) by {
            if j > 0 {
                assert(rest[j - 1] == s[j]);
            }
        }
    }
}

/// The trailing white space lies within the text and begins after a
/// character that is none.
pub proof fn lemma_trailing_spaces(s: Seq<char>)
    ensures
        trailing_spaces(s) <= s.len(),
        forall|j: int| s.len() - trailing_spaces(s) <= j < s.len() ==> is_space(#[trigger] s[j]),
        trailing_spaces(s) < s.len() ==> !is_space(s[s.len() - trailing_spaces(s) - 1]),
    decreases s.len(),
{
    if s.len() > 0 && is_space(s.last()) {
        let rest = s.drop_last();
        lemma_trailing_spaces(rest);
        assert forall|j: int| s.len() - trailing_spaces(s) <= j < s.len() implies is_space(
            #[trigger] s[j],
        ) by {
            if j < s.len() - 1 {
                assert(rest[j] == s[j]);
            }
        }
    }
}

/// Trimming removes the white space around a text and nothing else: a
/// `core` that neither begins nor ends with white space is what is left of
/// it, whatever white space stands before and after it.
pub proof fn lemma_trimmed_padding(before: Seq<char>, core: Seq<char>, after: Seq<char>)
    requires
        is_blank(before),
        is_blank(after),
        core.len() > 0 ==> !is_space(core[0]) && !is_space(core.last()),
    ensures
        trimmed(before + core + after) == core,
{
    let s = before + core + after;
    if core.len() == 0 {
        lemma_trim_start(s, s.len() as int);
    } else {
        lemma_trim_start(s, before.len() as int);
        let t = s.skip(before.len() as int);
        lemma_trim_end(t, core.len() as int);
    }
}

/// What trimming leaves is one stretch of the text: nothing but white
/// space stands before and after it, and where it is not empty it begins
/// and ends with a character that is no white space.
pub proof fn lemma_trimmed_is_the_core(s: Seq<char>)
    ensures
        exists|i: int, j: int|
            0 <= i <= j <= s.len() && #[trigger] s.subrange(i, j) == trimmed(s) && is_blank(
                s.take(i),
            ) && is_blank(s.skip(j)) && (i < j ==> !is_space(s[i]) && !is_space(s[j - 1])),
{
    let i = leading_spaces(s);
    lemma_leading_spaces(s);
    lemma_trim_start(s, i as int);
    let t = s.skip(i as int);
    let k = trailing_spaces(t);
    lemma_trailing_spaces(t);
    let j = s.len() - k;
    lemma_trim_end(t, t.len() - k);
    assert(t.take(t.len() - k) =~= s.subrange(i as int, j));
    assert forall|x: int| 0 <= x < s.skip(j).len() implies is_space(#[trigger] s.skip(j)[x]) by {
        assert(s.skip(j)[x] == t[t.len() - k + x]);
    }
}

/// Trimming a trimmed text changes nothing.
pub proof fn lemma_trimmed_twice(s: Seq<char>)
    ensures
        trimmed(trimmed(s)) == trimmed(s),
{
    lemma_trimmed_is_the_core(s);
}

/// No character before index `i` is `c`, and `i` is the end of `s` or holds
/// `c`: then `i` is the position of `c`.
pub proof fn lemma_position_of(s: Seq<char>, c: char, i: int)
    requires
        0 <= i <= s.len(),
        forall|j: int| 0 <= j < i ==> s[j] != c,
        i < s.len() ==> s[i] == c,
    ensures
        position_of(s, c) == i,
    decreases i,
{
    if i > 0 {
        lemma_position_of(s.skip(1), c, i - 1);
    }
}

/// The position of `c` lies within `s`, no earlier character is `c`, and
/// the character there, if any, is `c`.
pub proof fn lemma_position_of_bounds(s: Seq<char>, c: char)
    ensures
        position_of(s, c) <= s.len(),
        forall|j: int| 0 <= j < position_of(s, c) ==> s[j] != c,
        position_of(s, c) < s.len() ==> s[position_of(s, c) as int] == c,
    decreases s.len(),
{
    if s.len() > 0 && s[0] != c {
        let rest = s.skip(1);
        lemma_position_of_bounds(rest, c);
        assert forall|j: int| 0 <= j < position_of(s, c) implies s[j] != c by {
            if j > 0 {
                assert(rest[j - 1] == s[j]);
            }
        }
    }
}

/// Joining can start at the front: the first part, a separator, and the
/// rest joined.
pub proof fn lemma_joined_first(parts: Seq<Seq<char>>, sep: char)
    requires
        parts.len() >= 2,
    ensures
        joined(parts, sep) == parts[0] + seq![sep] + joined(parts.skip(1), sep),
    decreases parts.len(),
{
    let front = parts.drop_last();
    let tail = parts.skip(1);
    if parts.len() == 2 {
        assert(joined(front, sep) == parts[0]);
    } else {
        lemma_joined_first(front, sep);
        assert(tail.drop_last() =~= front.skip(1));
    }
}

/// Appends one character to a string (`String::push`): the text grows by
/// exactly that character at its end.
#[verifier::external_body]
pub(crate) fn push_char(s: &mut String, c: char)
    ensures
        final(s)@ == old(s)@.push(c),
{
    s.push(c)
}

/// Whether `c` is white space.
pub fn char_is_space(c: char) -> (b: bool)
    ensures
        b == is_space(c),
{
    let n: u32 = c as u32;
    (0x09 <= n && n <= 0x0D) || n == 0x20 || n == 0x85 || n == 0xA0 || n == 0x1680 || (0x2000 <= n
        && n <= 0x200A) || n == 0x2028 || n == 0x2029 || n == 0x202F || n == 0x205F || n == 0x3000
}

/// The characters of a string, in order.
pub fn to_chars(s: &str) -> (v: Vec<char>)
    ensures
        v@ == s@,
{
    let mut v: Vec<char> = Vec::new();
    for c in it: s.chars()
        invariant
            it.seq() == s@,
            v@ == it.seq().take(it.index() as int),
    {
        v.push(c);
    }
    v
}

/// The string made of the characters `chars[from..to]`.
pub(crate) fn from_chars(chars: &Vec<char>, from: usize, to: usize) -> (s: String)
    requires
        from <= to <= chars.len(),
    ensures
        s@ == chars@.subrange(from as int, to as int),
{
    let mut s = String::new();
    let mut i: usize = from;
    while i < to
        invariant
            from <= i <= to <= chars.len(),
            s@ == chars@.subrange(from as int, i as int),
        decreases to - i,
    {
        push_char(&mut s, chars[i]);
        i += 1;
    }
    s
}

/// The bounds of `chars[from..to]` without its leading and trailing white
/// space.
pub(crate) fn trim_range(chars: &Vec<char>, from: usize, to: usize) -> (r: (usize, usize))
    requires
        from <= to <= chars.len(),
    ensures
        from <= r.0 <= r.1 <= to,
        chars@.subrange(r.0 as int, r.1 as int) == trimmed(chars@.subrange(from as int, to as int)),
{
    let mut lo: usize = from;
    while lo < to && char_is_space(chars[lo])
        invariant
            from <= lo <= to <= chars.len(),
            forall|j: int| from <= j < lo ==> is_space(chars@[j]),
        decreases to - lo,
    {
        lo += 1;
    }
    let mut hi: usize = to;
    while hi > lo && char_is_space(chars[hi - 1])
        invariant
            lo <= hi <= to <= chars.len(),
            forall|j: int| hi <= j < to ==> is_space(chars@[j]),
        decreases hi,
    {
        hi -= 1;
    }
    proof {
        let s = chars@.subrange(from as int, to as int);
        lemma_trim_start(s, lo - from);
        lemma_trim_end(s.skip(lo - from), hi - lo);
    }
    (lo, hi)
}

/// The text without its leading and trailing white space.
pub fn trim(s: &str) -> (r: String)
    ensures
        r@ == trimmed(s@),
{
    let chars = to_chars(s);
    let (lo, hi) = trim_range(&chars, 0, chars.len());
    assert(chars@.subrange(0, chars.len() as int) =~= chars@);
    from_chars(&chars, lo, hi)
}

/// The index of the first `c` in `chars[from..to]`, or `to` where there is
/// none.
pub(crate) fn find_char(chars: &Vec<char>, from: usize, to: usize, c: char) -> (i: usize)
    requires
        from <= to <= chars.len(),
    ensures
        from <= i <= to,
        i - from == position_of(chars@.subrange(from as int, to as int), c),
{
    let mut i: usize = from;
    while i < to && chars[i] != c
        invariant
            from <= i <= to <= chars.len(),
            forall|j: int| from <= j < i ==> chars@[j] != c,
        decreases to - i,
    {
        i += 1;
    }
    proof {
        lemma_position_of(chars@.subrange(from as int, to as int), c, i - from);
    }
    i
}

/// Whether `chars[from..to]` begins with `pattern`.
pub(crate) fn has_prefix_at(chars: &Vec<char>, from: usize, to: usize, pattern: &Vec<char>) -> (b: bool)
    requires
        from <= to <= chars.len(),
    ensures
        b == pattern@.is_prefix_of(chars@.subrange(from as int, to as int)),
{
    if pattern.len() > to - from {
        return false;
    }
    let ghost s = chars@.subrange(from as int, to as int);
    let mut k: usize = 0;
    while k < pattern.len()
        invariant
            from <= to <= chars.len(),
            k <= pattern.len() <= to - from,
            s == chars@.subrange(from as int, to as int),
            forall|j: int| 0 <= j < k ==> pattern@[j] == s[j],
        decreases pattern.len() - k,
    {
        if chars[from + k] != pattern[k] {
            return false;
        }
        k += 1;
    }
    true
}

/// Whether `chars[from..to]` is the text `word`.
pub(crate) fn is_word_at(chars: &Vec<char>, from: usize, to: usize, word: &str) -> (r: bool)
    requires
        from <= to <= chars.len(),
    ensures
        r == (chars@.subrange(from as int, to as int) == word@),
{
    let pattern = to_chars(word);
    if pattern.len() != to - from {
        return false;
    }
    let r = has_prefix_at(chars, from, to, &pattern);
    proof {
        let s = chars@.subrange(from as int, to as int);
        assert(s.subrange(0, s.len() as int) =~= s);
    }
    r
}

/// Whether the two strings hold the same text.
pub fn same_text(a: &str, b: &str) -> (same: bool)
    ensures
        same == (a@ == b@),
{
    let chars = to_chars(a);
    assert(chars@.subrange(0, chars.len() as int) =~= a@);
    is_word_at(&chars, 0, chars.len(), b)
}

/// Joins the parts into one string, with `sep` between neighbours.
pub fn join(parts: &Vec<String>, sep: char) -> (r: String)
    ensures
        r@ == joined(parts.deep_view(), sep),
{
    let mut r = String::new();
    let mut i: usize = 0;
    while i < parts.len()
        invariant
            i <= parts.len(),
            r@ == joined(parts.deep_view().take(i as int), sep),
        decreases parts.len() - i,
    {
        proof {
            let now = parts.deep_view().take(i as int + 1);
            assert(now.drop_last() =~= parts.deep_view().take(i as int));
        }
        if i > 0 {
            push_char(&mut r, sep);
        }
        r.append(parts[i].as_str());
        i += 1;
    }
    assert(parts.deep_view().take(parts.len() as int) =~= parts.deep_view());
    r
}

} // verus!
