//! Character-level helpers shared by the parsers and formatters of this crate.
//!
//! Every function here is specified over `Seq<char>`, the view of `str` and
//! `String`. The executable functions work on `&[char]`, so that a text is
//! decoded once and then read by index.

use vstd::prelude::*;
use vstd::slice::slice_subrange;
use vstd::string::*;

verus! {

/// `String::push` of the standard library appends the character `ch` to the
/// end of the string and leaves the characters before it as they were. This
/// is assumed, not proved; it is the only assumption of this crate.
pub assume_specification[ String::push ](s: &mut String, ch: char)
    ensures
        final(s)@ == old(s)@.push(ch),
;

/// The characters that count as white space when a line or a command's output
/// is trimmed: the code points with the Unicode `White_Space` property.
pub open spec fn is_space(c: char) -> bool {
    let n = c as u32;
    ||| (0x09 <= n && n <= 0x0D)
    ||| n == 0x20
    ||| n == 0x85
    ||| n == 0xA0
    ||| n == 0x1680
    ||| (0x2000 <= n && n <= 0x200A)
    ||| n == 0x2028
    ||| n == 0x2029
    ||| n == 0x202F
    ||| n == 0x205F
    ||| n == 0x3000
}

/// `s` without its trailing white space.
pub open spec fn trim_end(s: Seq<char>) -> Seq<char>
    decreases s.len(),
{
    if s.len() > 0 && is_space(s.last()) {
        trim_end(s.drop_last())
    } else {
        s
    }
}

/// `s` without its leading white space.
pub open spec fn trim_start(s: Seq<char>) -> Seq<char>
    decreases s.len(),
{
    if s.len() > 0 && is_space(s.first()) {
        trim_start(s.drop_first())
    } else {
        s
    }
}

/// `s` without leading and trailing white space.
pub open spec fn trim(s: Seq<char>) -> Seq<char> {
    trim_start(trim_end(s))
}

/// The index of the first `c` in `s`, or `s.len()` where `s` holds none.
pub open spec fn first_index(s: Seq<char>, c: char) -> int
    decreases s.len(),
{
    if s.len() == 0 {
        0
    } else if s[0] == c {
        0
    } else {
        1 + first_index(s.drop_first(), c)
    }
}

/// The pieces of `s` between the occurrences of `c`. A text without `c` is one
/// piece; a text that ends in `c` has an empty last piece.
pub open spec fn split_on(s: Seq<char>, c: char) -> Seq<Seq<char>>
    decreases s.len(),
{
    let k = first_index(s, c);
    if 0 <= k < s.len() {
        seq![s.subrange(0, k)] + split_on(s.subrange(k + 1, s.len() as int), c)
    } else {
        seq![s]
    }
}

/// The index at which the first occurrence of `pat` in `s` starts, or
/// `s.len()` where there is none. An empty `pat` occurs at index 0.
pub open spec fn first_match(s: Seq<char>, pat: Seq<char>) -> int
    decreases s.len(),
{
    if pat.is_prefix_of(s) {
        0
    } else if s.len() == 0 {
        0
    } else {
        1 + first_match(s.drop_first(), pat)
    }
}

/// Whether `pat` occurs somewhere in `s`.
pub open spec fn contains(s: Seq<char>, pat: Seq<char>) -> bool {
    exists|i: int| 0 <= i && i + pat.len() <= s.len() && #[trigger] s.subrange(i, i + pat.len()) == pat
}

/// `s` with every `from` replaced by `to`.
pub open spec fn replace_char(s: Seq<char>, from: char, to: char) -> Seq<char> {
    Seq::new(s.len(), |i: int| if s[i] == from { to } else { s[i] })
}

/// `n` copies of `c`.
pub open spec fn repeat(c: char, n: nat) -> Seq<char> {
    Seq::new(n, |i: int| c)
}

/// `s` followed by as many spaces as it takes to reach `width` characters;
/// `s` itself where it is that long already.
pub open spec fn pad_right(s: Seq<char>, width: nat) -> Seq<char> {
    if s.len() >= width {
        s
    } else {
        s + repeat(' ', (width - s.len()) as nat)
    }
}

/// What `first_index` returns lies inside `s` or at its end, no `c` stands
/// before it, and a `c` stands at it unless it is the end.
pub proof fn lemma_first_index(s: Seq<char>, c: char)
    ensures
        0 <= first_index(s, c) <= s.len(),
        forall|j: int| 0 <= j < first_index(s, c) ==> s[j] != c,
        first_index(s, c) < s.len() ==> s[first_index(s, c)] == c,
    decreases s.len(),
{
    if s.len() > 0 && s[0] != c {
        let t = s.drop_first();
        lemma_first_index(t, c);
        assert forall|j: int| 0 <= j < first_index(s, c) implies s[j] != c by {
            if j > 0 {
                assert(s[j] == t[j - 1]);
            }
        }
    }
}

/// An index with the three properties of `lemma_first_index` is `first_index`.
pub proof fn lemma_first_index_is(s: Seq<char>, c: char, k: int)
    requires
        0 <= k <= s.len(),
        forall|j: int| 0 <= j < k ==> s[j] != c,
        k < s.len() ==> s[k] == c,
    ensures
        first_index(s, c) == k,
    decreases s.len(),
{
    if s.len() > 0 && s[0] != c {
        let t = s.drop_first();
        assert forall|j: int| 0 <= j < k - 1 implies t[j] != c by {
            assert(t[j] == s[j + 1]);
        }
        lemma_first_index_is(t, c, k - 1);
    }
}

/// Tells whether `c` is white space.
pub fn char_is_space(c: char) -> (r: bool)
    ensures
        r == is_space(c),
{
    let n: u32 = c as u32;
    (0x09 <= n && n <= 0x0D) || n == 0x20 || n == 0x85 || n == 0xA0 || n == 0x1680 || (0x2000 <= n
        && n <= 0x200A) || n == 0x2028 || n == 0x2029 || n == 0x202F || n == 0x205F || n == 0x3000
}

/// The characters of `s`, in order.
pub fn chars_of(s: &str) -> (v: Vec<char>)
    ensures
        v@ == s@,
{
    let mut v: Vec<char> = Vec::new();
    for c in it: s.chars()
        invariant
            it.seq() == s@,
            v@ == s@.subrange(0, it.index()),
    {
        v.push(c);
    }
    v
}

/// The string made of the characters of `s`.
pub fn string_of(s: &[char]) -> (r: String)
    ensures
        r@ == s@,
{
    let mut r = String::new();
    let mut i: usize = 0;
    while i < s.len()
        invariant
            i <= s.len(),
            r@ == s@.subrange(0, i as int),
        decreases s.len() - i,
    {
        r.push(s[i]);
        i += 1;
    }
    r
}

/// Whether `a` and `b` hold the same characters.
pub fn same_text(a: &[char], b: &[char]) -> (r: bool)
    ensures
        r == (a@ == b@),
{
    if a.len() != b.len() {
        return false;
    }
    let mut i: usize = 0;
    while i < a.len()
        invariant
            i <= a.len(),
            a.len() == b.len(),
            a@.subrange(0, i as int) == b@.subrange(0, i as int),
        decreases a.len() - i,
    {
        if a[i] != b[i] {
            return false;
        }
        assert(a@.subrange(0, i + 1) == a@.subrange(0, i as int).push(a@[i as int]));
        assert(b@.subrange(0, i + 1) == b@.subrange(0, i as int).push(b@[i as int]));
        i += 1;
    }
    assert(a@ == a@.subrange(0, a.len() as int));
    assert(b@ == b@.subrange(0, b.len() as int));
    true
}

/// Whether `s` reads exactly as the word `word`.
pub fn is_word(s: &[char], word: &str) -> (r: bool)
    ensures
        r == (s@ == word@),
{
    let w = chars_of(word);
    same_text(s, w.as_slice())
}

/// `s` without its trailing white space.
pub fn cut_trailing_space(s: &[char]) -> (r: &[char])
    ensures
        r@ == trim_end(s@),
{
    let mut end: usize = s.len();
    assert(s@.subrange(0, end as int) == s@);
    while end > 0 && char_is_space(s[end - 1])
        invariant
            end <= s.len(),
            trim_end(s@.subrange(0, end as int)) == trim_end(s@),
        decreases end,
    {
        assert(s@.subrange(0, end as int).drop_last() == s@.subrange(0, end - 1));
        end -= 1;
    }
    slice_subrange(s, 0, end)
}

/// `s` without its leading white space.
pub fn cut_leading_space(s: &[char]) -> (r: &[char])
    ensures
        r@ == trim_start(s@),
{
    let n = s.len();
    let mut start: usize = 0;
    assert(s@.subrange(0, n as int) == s@);
    while start < n && char_is_space(s[start])
        invariant
            start <= n,
            n == s.len(),
            trim_start(s@.subrange(start as int, n as int)) == trim_start(s@),
        decreases n - start,
    {
        assert(s@.subrange(start as int, n as int).drop_first() == s@.subrange(
            start + 1,
            n as int,
        ));
        start += 1;
    }
    slice_subrange(s, start, n)
}

/// `s` without leading and trailing white space.
pub fn cut_space(s: &[char]) -> (r: &[char])
    ensures
        r@ == trim(s@),
{
    cut_leading_space(cut_trailing_space(s))
}

/// The index of the first `c` in `s`, or `s.len()` where `s` holds none.
pub fn find_char(s: &[char], c: char) -> (k: usize)
    ensures
        k == first_index(s@, c),
        k <= s.len(),
{
    let mut k: usize = 0;
    while k < s.len() && s[k] != c
        invariant
            k <= s.len(),
            forall|j: int| 0 <= j < k ==> s@[j] != c,
        decreases s.len() - k,
    {
        k += 1;
    }
    proof {
        lemma_first_index_is(s@, c, k as int);
    }
    k
}

/// Whether `s` begins with `prefix`.
pub fn starts_with(s: &[char], prefix: &[char]) -> (r: bool)
    ensures
        r == prefix@.is_prefix_of(s@),
{
    if prefix.len() > s.len() {
        return false;
    }
    same_text(slice_subrange(s, 0, prefix.len()), prefix)
}

/// `s` without the prefix `prefix`; `None` where `s` does not begin with it.
pub open spec fn strip_prefix(s: Seq<char>, prefix: Seq<char>) -> Option<Seq<char>> {
    if prefix.is_prefix_of(s) {
        Some(s.subrange(prefix.len() as int, s.len() as int))
    } else {
        None
    }
}

/// Appends the characters of `tail` to `s`.
pub fn append_chars(s: &mut String, tail: &[char])
    ensures
        final(s)@ == old(s)@ + tail@,
{
    let mut i: usize = 0;
    assert(tail@.subrange(0, 0) == Seq::<char>::empty());
    assert(s@ + Seq::<char>::empty() == s@);
    while i < tail.len()
        invariant
            i <= tail.len(),
            s@ == old(s)@ + tail@.subrange(0, i as int),
        decreases tail.len() - i,
    {
        assert(tail@.subrange(0, i + 1) == tail@.subrange(0, i as int).push(tail@[i as int]));
        assert((old(s)@ + tail@.subrange(0, i as int)).push(tail@[i as int]) == old(s)@
            + tail@.subrange(0, i + 1));
        s.push(tail[i]);
        i += 1;
    }
    assert(tail@.subrange(0, tail.len() as int) == tail@);
}

/// `s` without the prefix `prefix`; `None` where `s` does not begin with it.
pub fn without_prefix<'a>(s: &'a [char], prefix: &str) -> (r: Option<&'a [char]>)
    ensures
        match strip_prefix(s@, prefix@) {
            Some(rest) => r matches Some(x) && x@ == rest,
            None => r is None,
        },
{
    let p = chars_of(prefix);
    if starts_with(s, p.as_slice()) {
        Some(slice_subrange(s, p.len(), s.len()))
    } else {
        None
    }
}

/// The characters of an optional string.
pub open spec fn opt_text(o: Option<String>) -> Option<Seq<char>> {
    match o {
        Some(s) => Some(s@),
        None => None,
    }
}

/// The characters of an optional string slice.
pub open spec fn opt_str(o: Option<&str>) -> Option<Seq<char>> {
    match o {
        Some(s) => Some(s@),
        None => None,
    }
}

/// A copy of an optional string.
pub fn clone_text(o: &Option<String>) -> (r: Option<String>)
    ensures
        opt_text(r) == opt_text(*o),
{
    match o {
        Some(s) => Some(s.clone()),
        None => None,
    }
}

/// The texts of a sequence of strings.
pub open spec fn texts_of(v: Seq<String>) -> Seq<Seq<char>> {
    Seq::new(v.len(), |i: int| v[i]@)
}

/// `parts` with `sep` between each two.
pub open spec fn join_with(parts: Seq<Seq<char>>, sep: Seq<char>) -> Seq<char>
    decreases parts.len(),
{
    if parts.len() == 0 {
        Seq::empty()
    } else if parts.len() == 1 {
        parts[0]
    } else {
        join_with(parts.drop_last(), sep) + sep + parts.last()
    }
}

/// The strings `parts` with `sep` between each two.
pub fn join_strings(parts: &Vec<String>, sep: &str) -> (r: String)
    ensures
        r@ == join_with(texts_of(parts@), sep@),
{
    let mut r = String::new();
    let mut i: usize = 0;
    let ghost all = texts_of(parts@);
    assert(all.take(0) == Seq::<Seq<char>>::empty());
    while i < parts.len()
        invariant
            i <= parts.len(),
            all == texts_of(parts@),
            r@ == join_with(all.take(i as int), sep@),
        decreases parts.len() - i,
    {
        let ghost sofar = all.take(i as int);
        let ghost next = all.take(i + 1);
        assert(next.drop_last() == sofar);
        assert(next.last() == parts@[i as int]@);
        if i > 0 {
            r.append(sep);
        }
        r.append(parts[i].as_str());
        proof {
            if i == 0 {
                assert(join_with(next, sep@) == next[0]);
                assert(Seq::<char>::empty() + next[0] == next[0]);
            }
        }
        i += 1;
    }
    assert(all.take(parts.len() as int) == all);
    r
}

/// The pieces of `s` between the occurrences of `pat`, read from the left;
/// occurrences do not overlap. An empty `pat` occurs nowhere.
pub open spec fn split_at(s: Seq<char>, pat: Seq<char>) -> Seq<Seq<char>>
    decreases s.len(),
{
    let k = first_match(s, pat);
    if pat.len() > 0 && 0 <= k && k + pat.len() <= s.len() {
        seq![s.subrange(0, k)] + split_at(s.subrange(k + pat.len(), s.len() as int), pat)
    } else {
        seq![s]
    }
}

/// What `first_match` returns lies inside `s` or at its end, `pat` occurs at
/// no index before it, and `pat` occurs at it unless it is the end and `pat`
/// is not empty.
pub proof fn lemma_first_match(s: Seq<char>, pat: Seq<char>)
    ensures
        0 <= first_match(s, pat) <= s.len(),
        forall|j: int| 0 <= j < first_match(s, pat) ==> !pat.is_prefix_of(#[trigger] s.skip(j)),
        first_match(s, pat) < s.len() ==> pat.is_prefix_of(s.skip(first_match(s, pat))),
        first_match(s, pat) == s.len() ==> (pat.len() == 0 || !contains(s, pat)),
    decreases s.len(),
{
    if pat.is_prefix_of(s) {
        assert(s.skip(0) == s);
    } else if s.len() == 0 {
        assert forall|i: int| 0 <= i && i + pat.len() <= s.len() implies #[trigger] s.subrange(
            i,
            i + pat.len(),
        ) != pat by {
            assert(s.subrange(0, 0) == s);
        }
    } else {
        let t = s.drop_first();
        lemma_first_match(t, pat);
        let k = first_match(t, pat);
        assert forall|j: int| 0 <= j < k + 1 implies !pat.is_prefix_of(#[trigger] s.skip(j)) by {
            if j == 0 {
                assert(s.skip(0) == s);
            } else {
                assert(s.skip(j) == t.skip(j - 1));
            }
        }
        if k < t.len() {
            assert(s.skip(k + 1) == t.skip(k));
        }
        if k == t.len() && pat.len() > 0 {
            assert forall|i: int| 0 <= i && i + pat.len() <= s.len() implies #[trigger] s.subrange(
                i,
                i + pat.len(),
            ) != pat by {
                if i == 0 {
                    assert(s.subrange(0, pat.len() as int) == pat ==> pat.is_prefix_of(s));
                } else {
                    assert(s.subrange(i, i + pat.len()) == t.subrange(i - 1, i - 1 + pat.len()));
                }
            }
        }
    }
}

/// An index with the properties of `lemma_first_match` is `first_match`.
pub proof fn lemma_first_match_is(s: Seq<char>, pat: Seq<char>, k: int)
    requires
        0 <= k <= s.len(),
        forall|j: int| 0 <= j < k ==> !pat.is_prefix_of(#[trigger] s.skip(j)),
        k < s.len() ==> pat.is_prefix_of(s.skip(k)),
    ensures
        first_match(s, pat) == k,
    decreases s.len(),
{
    if k == 0 {
        if s.len() > 0 {
            assert(s.skip(0) == s);
        } else if pat.is_prefix_of(s) {
        }
    } else {
        assert(s.skip(0) == s);
        let t = s.drop_first();
        assert forall|j: int| 0 <= j < k - 1 implies !pat.is_prefix_of(#[trigger] t.skip(j)) by {
            assert(t.skip(j) == s.skip(j + 1));
        }
        if k < s.len() {
            assert(t.skip(k - 1) == s.skip(k));
        }
        lemma_first_match_is(t, pat, k - 1);
    }
}

/// Whether `pat` occurs somewhere in `s`, in terms of `first_match`.
pub proof fn lemma_contains_iff_first_match(s: Seq<char>, pat: Seq<char>)
    ensures
        contains(s, pat) <==> (pat.len() == 0 || first_match(s, pat) < s.len()),
{
    lemma_first_match(s, pat);
    let k = first_match(s, pat);
    if pat.len() == 0 {
        assert(s.subrange(0, 0) == pat);
    } else if k < s.len() {
        assert(pat.is_prefix_of(s.skip(k)));
        assert(s.skip(k).subrange(0, pat.len() as int) == s.subrange(k, k + pat.len()));
    }
}

/// The index at which the first occurrence of `pat` in `s` starts, or
/// `s.len()` where there is none.
pub fn find_text(s: &[char], pat: &[char]) -> (k: usize)
    ensures
        k == first_match(s@, pat@),
        k <= s.len(),
{
    let n = s.len();
    let mut k: usize = 0;
    while k < n
        invariant
            k <= n,
            n == s.len(),
            forall|j: int| 0 <= j < k ==> !pat@.is_prefix_of(#[trigger] s@.skip(j)),
        decreases n - k,
    {
        let rest = slice_subrange(s, k, n);
        assert(rest@ == s@.skip(k as int));
        if starts_with(rest, pat) {
            proof {
                lemma_first_match_is(s@, pat@, k as int);
            }
            return k;
        }
        k += 1;
    }
    proof {
        lemma_first_match_is(s@, pat@, k as int);
    }
    k
}

/// Whether `pat` occurs somewhere in `s`.
pub fn contains_text(s: &[char], pat: &[char]) -> (r: bool)
    ensures
        r == contains(s@, pat@),
{
    proof {
        lemma_contains_iff_first_match(s@, pat@);
    }
    pat.len() == 0 || find_text(s, pat) < s.len()
}

/// Whether the word `word` occurs somewhere in `s`.
pub fn mentions(s: &[char], word: &str) -> (r: bool)
    ensures
        r == contains(s@, word@),
{
    let w = chars_of(word);
    contains_text(s, w.as_slice())
}

/// The texts of a sequence of slices.
pub open spec fn slice_texts(v: Seq<&[char]>) -> Seq<Seq<char>> {
    Seq::new(v.len(), |i: int| v[i]@)
}

/// The pieces of `s` between the occurrences of `pat`; `s` in one piece
/// where `pat` is empty.
pub fn split_text<'a>(s: &'a [char], pat: &[char]) -> (v: Vec<&'a [char]>)
    ensures
        slice_texts(v@) == split_at(s@, pat@),
{
    let n = s.len();
    let mut v: Vec<&'a [char]> = Vec::new();
    if pat.len() == 0 {
        v.push(s);
        assert(slice_texts(v@) == seq![s@]);
        return v;
    }
    let mut pos: usize = 0;
    let mut more = true;
    assert(s@.subrange(0, n as int) == s@);
    assert(slice_texts(v@) == Seq::<Seq<char>>::empty());
    assert(Seq::<Seq<char>>::empty() + split_at(s@, pat@) == split_at(s@, pat@));
    while more
        invariant
            n == s.len(),
            pos <= n,
            pat.len() > 0,
            more ==> split_at(s@, pat@) == slice_texts(v@) + split_at(
                s@.subrange(pos as int, n as int),
                pat@,
            ),
            !more ==> split_at(s@, pat@) == slice_texts(v@),
        decreases n - pos + (if more { 1int } else { 0int }),
    {
        let rest = slice_subrange(s, pos, n);
        let k = find_text(rest, pat);
        let ghost before = slice_texts(v@);
        proof {
            lemma_first_match(rest@, pat@);
        }
        if k < rest.len() {
            let piece = slice_subrange(rest, 0, k);
            v.push(piece);
            proof {
                assert(slice_texts(v@) == before + seq![piece@]);
                let tail = rest@.subrange(k + pat.len(), rest@.len() as int);
                assert(tail == s@.subrange(pos + k + pat.len(), n as int));
                assert(before + (seq![piece@] + split_at(tail, pat@)) == before + seq![piece@]
                    + split_at(tail, pat@));
            }
            pos = pos + k + pat.len();
        } else {
            v.push(rest);
            proof {
                assert(slice_texts(v@) == before + seq![rest@]);
            }
            more = false;
        }
    }
    v
}

/// `s`, then spaces up to `width` characters.
pub fn pad_to(s: &str, width: usize) -> (r: String)
    ensures
        r@ == pad_right(s@, width as nat),
{
    let mut r = s.to_owned();
    let have = s.unicode_len();
    if have >= width {
        return r;
    }
    let mut i: usize = have;
    assert(repeat(' ', 0) == Seq::<char>::empty());
    assert(s@ + Seq::<char>::empty() == s@);
    while i < width
        invariant
            have <= i <= width,
            have == s@.len(),
            r@ == s@ + repeat(' ', (i - have) as nat),
        decreases width - i,
    {
        assert(repeat(' ', (i - have) as nat).push(' ') == repeat(' ', (i + 1 - have) as nat));
        assert((s@ + repeat(' ', (i - have) as nat)).push(' ') == s@ + repeat(
            ' ',
            (i + 1 - have) as nat,
        ));
        r.push(' ');
        i += 1;
    }
    r
}

/// The number of bytes that `s` takes in UTF-8.
pub open spec fn byte_len(s: Seq<char>) -> nat {
    vstd::utf8::encode_utf8(s).len()
}

/// The largest `byte_len` among `names`; 0 where there are none.
pub open spec fn widest(names: Seq<Seq<char>>) -> nat
    decreases names.len(),
{
    if names.len() == 0 {
        0
    } else {
        let before = widest(names.drop_last());
        if byte_len(names.last()) > before {
            byte_len(names.last())
        } else {
            before
        }
    }
}

/// Entry `i` of a column, or nothing where the column is shorter.
pub open spec fn cell(column: Seq<Seq<char>>, i: int) -> Seq<char> {
    if 0 <= i < column.len() {
        column[i]
    } else {
        Seq::empty()
    }
}

/// Two columns as lines, one for each `left`: the `left` padded to the width
/// of the column, two spaces, and the `right` of the same row. The width of
/// the column is the largest number of bytes that a `left` takes.
pub open spec fn aligned(left: Seq<Seq<char>>, right: Seq<Seq<char>>) -> Seq<Seq<char>> {
    Seq::new(left.len(), |i: int| pad_right(left[i], widest(left)) + "  "@ + cell(right, i))
}

/// The width of a column is at least that of each of its entries.
pub proof fn lemma_widest_bounds(names: Seq<Seq<char>>, i: int)
    requires
        0 <= i < names.len(),
    ensures
        byte_len(names[i]) <= widest(names),
    decreases names.len(),
{
    if i < names.len() - 1 {
        lemma_widest_bounds(names.drop_last(), i);
    }
}

/// The largest number of bytes that one of `names` takes.
pub fn column_width(names: &Vec<String>) -> (w: usize)
    ensures
        w == widest(texts_of(names@)),
{
    let mut w: usize = 0;
    let mut i: usize = 0;
    let ghost all = texts_of(names@);
    assert(all.take(0) == Seq::<Seq<char>>::empty());
    while i < names.len()
        invariant
            i <= names.len(),
            all == texts_of(names@),
            w == widest(all.take(i as int)),
        decreases names.len() - i,
    {
        assert(all.take(i + 1).drop_last() == all.take(i as int));
        assert(all.take(i + 1).last() == names@[i as int]@);
        let n = names[i].as_str().as_bytes().len();
        if n > w {
            w = n;
        }
        i += 1;
    }
    assert(all.take(names.len() as int) == all);
    w
}

/// Lays out two columns as lines.
pub fn align_columns(left: &Vec<String>, right: &Vec<String>) -> (lines: Vec<String>)
    ensures
        texts_of(lines@) == aligned(texts_of(left@), texts_of(right@)),
        lines.len() == left.len(),
{
    let width = column_width(left);
    let mut lines: Vec<String> = Vec::new();
    let mut i: usize = 0;
    while i < left.len()
        invariant
            i <= left.len(),
            width == widest(texts_of(left@)),
            lines.len() == i,
            forall|j: int|
                0 <= j < i ==> (#[trigger] lines@[j])@ == pad_right(left@[j]@, width as nat) + "  "@
                    + cell(texts_of(right@), j),
        decreases left.len() - i,
    {
        let mut line = pad_to(left[i].as_str(), width);
        line.append("  ");
        if i < right.len() {
            line.append(right[i].as_str());
        } else {
            assert(line@ + Seq::<char>::empty() == line@);
        }
        lines.push(line);
        i += 1;
    }
    assert(texts_of(lines@) =~= aligned(texts_of(left@), texts_of(right@)));
    lines
}

/// The character of the digit `d`.
pub open spec fn digit_char(d: int) -> char {
    if d == 0 {
        '0'
    } else if d == 1 {
        '1'
    } else if d == 2 {
        '2'
    } else if d == 3 {
        '3'
    } else if d == 4 {
        '4'
    } else if d == 5 {
        '5'
    } else if d == 6 {
        '6'
    } else if d == 7 {
        '7'
    } else if d == 8 {
        '8'
    } else {
        '9'
    }
}

/// The decimal digits of `n`, without leading zeros.
pub open spec fn digits(n: nat) -> Seq<char>
    decreases n,
{
    if n < 10 {
        seq![digit_char(n as int)]
    } else {
        digits(n / 10).push(digit_char((n % 10) as int))
    }
}

/// `n` in decimal, with a minus sign where it is negative.
pub open spec fn decimal(n: int) -> Seq<char> {
    if n < 0 {
        seq!['-'] + digits((-n) as nat)
    } else {
        digits(n as nat)
    }
}

/// The character of the digit `d`.
fn digit(d: u64) -> (c: char)
    requires
        d < 10,
    ensures
        c == digit_char(d as int),
{
    if d == 0 {
        '0'
    } else if d == 1 {
        '1'
    } else if d == 2 {
        '2'
    } else if d == 3 {
        '3'
    } else if d == 4 {
        '4'
    } else if d == 5 {
        '5'
    } else if d == 6 {
        '6'
    } else if d == 7 {
        '7'
    } else if d == 8 {
        '8'
    } else {
        '9'
    }
}

/// Appends the decimal digits of `n` to `s`.
fn append_digits(s: &mut String, n: u64)
    ensures
        final(s)@ == old(s)@ + digits(n as nat),
    decreases n,
{
    if n >= 10 {
        append_digits(s, n / 10);
    }
    s.push(digit(n % 10));
    proof {
        if n >= 10 {
            assert((old(s)@ + digits((n / 10) as nat)).push(digit_char((n % 10) as int)) == old(s)@
                + digits(n as nat));
        } else {
            assert(old(s)@.push(digit_char(n as int)) == old(s)@ + digits(n as nat));
        }
    }
}

/// `n` in decimal.
pub fn decimal_text(n: i32) -> (r: String)
    ensures
        r@ == decimal(n as int),
{
    let mut r = String::new();
    if n < 0 {
        r.push('-');
        let magnitude: u64 = (0 - (n as i64)) as u64;
        append_digits(&mut r, magnitude);
        assert(r@ == seq!['-'] + digits((-n) as nat));
    } else {
        append_digits(&mut r, n as u64);
        assert(Seq::<char>::empty() + digits(n as nat) == digits(n as nat));
    }
    r
}

/// The count `n` in decimal.
pub fn count_text(n: usize) -> (r: String)
    ensures
        r@ == digits(n as nat),
{
    let mut r = String::new();
    append_digits(&mut r, n as u64);
    assert(Seq::<char>::empty() + digits(n as nat) == digits(n as nat));
    r
}

/// Adds the line `line` to `v`.
pub fn push_line(v: &mut Vec<String>, line: String)
    ensures
        texts_of(final(v)@) == texts_of(old(v)@).push(line@),
{
    v.push(line);
    assert(texts_of(v@) =~= texts_of(old(v)@).push(line@));
}

/// Adds the lines `more` to `v`.
pub fn push_lines(v: &mut Vec<String>, more: Vec<String>)
    ensures
        texts_of(final(v)@) == texts_of(old(v)@) + texts_of(more@),
{
    let mut i: usize = 0;
    let ghost before = texts_of(v@);
    assert(before + texts_of(more@).take(0) == before);
    while i < more.len()
        invariant
            i <= more.len(),
            texts_of(v@) == before + texts_of(more@).take(i as int),
        decreases more.len() - i,
    {
        assert(texts_of(more@).take(i + 1) == texts_of(more@).take(i as int).push(more@[i as int]@));
        push_line(v, more[i].clone());
        assert((before + texts_of(more@).take(i as int)).push(more@[i as int]@) == before
            + texts_of(more@).take(i + 1));
        i += 1;
    }
    assert(texts_of(more@).take(more.len() as int) == texts_of(more@));
}

/// The strings of a sequence of pieces of text.
pub fn strings_of(pieces: &Vec<&[char]>) -> (r: Vec<String>)
    ensures
        texts_of(r@) == slice_texts(pieces@),
{
    let mut r: Vec<String> = Vec::new();
    let mut i: usize = 0;
    while i < pieces.len()
        invariant
            i <= pieces.len(),
            r.len() == i,
            forall|j: int| 0 <= j < i ==> (#[trigger] r@[j])@ == pieces@[j]@,
        decreases pieces.len() - i,
    {
        r.push(string_of(pieces[i]));
        i += 1;
    }
    assert(texts_of(r@) =~= slice_texts(pieces@));
    r
}

/// `line` without a carriage return at its end.
pub open spec fn chomp(line: Seq<char>) -> Seq<char> {
    if line.len() > 0 && line.last() == '\r' {
        line.drop_last()
    } else {
        line
    }
}

/// The lines of `s`. A line ends at a line feed; a carriage return just
/// before the line feed belongs to the line ending. The last line needs no
/// line ending, and an empty text has no line.
pub open spec fn lines(s: Seq<char>) -> Seq<Seq<char>>
    decreases s.len(),
{
    let k = first_index(s, '\n');
    if s.len() == 0 {
        Seq::empty()
    } else if 0 <= k < s.len() {
        seq![chomp(s.subrange(0, k))] + lines(s.subrange(k + 1, s.len() as int))
    } else {
        seq![s]
    }
}

/// The lines of `s`.
pub fn split_lines<'a>(s: &'a [char]) -> (v: Vec<&'a [char]>)
    ensures
        slice_texts(v@) == lines(s@),
{
    let n = s.len();
    let mut v: Vec<&'a [char]> = Vec::new();
    let mut pos: usize = 0;
    assert(s@.subrange(0, n as int) == s@);
    assert(slice_texts(v@) == Seq::<Seq<char>>::empty());
    assert(Seq::<Seq<char>>::empty() + lines(s@) == lines(s@));
    while pos < n
        invariant
            n == s.len(),
            pos <= n,
            lines(s@) == slice_texts(v@) + lines(s@.subrange(pos as int, n as int)),
        decreases n - pos,
    {
        let rest = slice_subrange(s, pos, n);
        let k = find_char(rest, '\n');
        let ghost before = slice_texts(v@);
        if k < rest.len() {
            let whole = slice_subrange(rest, 0, k);
            let line = if k > 0 && whole[k - 1] == '\r' {
                assert(whole@.drop_last() == whole@.subrange(0, k - 1));
                slice_subrange(whole, 0, k - 1)
            } else {
                whole
            };
            v.push(line);
            proof {
                assert(slice_texts(v@) == before + seq![line@]);
                let tail = rest@.subrange(k + 1, rest@.len() as int);
                assert(tail == s@.subrange(pos + k + 1, n as int));
                assert(before + (seq![line@] + lines(tail)) == before + seq![line@] + lines(tail));
            }
            pos = pos + k + 1;
        } else {
            v.push(rest);
            proof {
                assert(slice_texts(v@) == before + seq![rest@]);
                assert(s@.subrange(n as int, n as int) == Seq::<char>::empty());
                assert(lines(s@.subrange(n as int, n as int)) == Seq::<Seq<char>>::empty());
                assert(before + seq![rest@] + Seq::<Seq<char>>::empty() == before + seq![rest@]);
            }
            pos = n;
        }
    }
    assert(lines(s@.subrange(n as int, n as int)) == Seq::<Seq<char>>::empty()) by {
        assert(s@.subrange(n as int, n as int).len() == 0);
    }
    assert(slice_texts(v@) + Seq::<Seq<char>>::empty() == slice_texts(v@));
    v
}

} // verus!
