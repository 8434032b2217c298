//! Paths as text.
//!
//! A path is read as a sequence of components separated by `/`. Empty segments
//! (a doubled or trailing separator) and `.` segments do not count, but for a
//! `.` that begins a relative path. Two texts are the same path when both are
//! absolute or both relative and their components agree.

use crate::text::{
    append_chars, chars_of, find_char, first_index, lemma_first_index, lemma_first_index_is,
    same_text, slice_texts,
};
use vstd::prelude::*;
use vstd::slice::slice_subrange;

verus! {

/// Whether `p` begins at the root.
pub open spec fn is_absolute(p: Seq<char>) -> bool {
    p.len() > 0 && p[0] == '/'
}

/// The segment `.`, which names the directory it stands in.
pub open spec fn dot() -> Seq<char> {
    seq!['.']
}

/// The segment `..`, which names the directory above.
pub open spec fn dot_dot() -> Seq<char> {
    seq!['.', '.']
}

/// Whether a segment that does not begin the path is a component.
pub open spec fn counts(segment: Seq<char>) -> bool {
    segment.len() > 0 && segment != dot()
}

/// The components of a text that follows a separator.
pub open spec fn later_components(p: Seq<char>) -> Seq<Seq<char>>
    decreases p.len(),
{
    let k = first_index(p, '/');
    let segment = p.subrange(0, k);
    let here = if counts(segment) {
        seq![segment]
    } else {
        Seq::empty()
    };
    if 0 <= k < p.len() {
        here + later_components(p.subrange(k + 1, p.len() as int))
    } else {
        here
    }
}

/// The components of the path `p`, in order. The root is not among them.
pub open spec fn components(p: Seq<char>) -> Seq<Seq<char>> {
    let k = first_index(p, '/');
    let segment = p.subrange(0, k);
    let first = if segment.len() > 0 {
        seq![segment]
    } else {
        Seq::empty()
    };
    if 0 <= k < p.len() {
        first + later_components(p.subrange(k + 1, p.len() as int))
    } else {
        first
    }
}

/// Whether two texts are the same path.
pub open spec fn same_path(a: Seq<char>, b: Seq<char>) -> bool {
    is_absolute(a) == is_absolute(b) && components(a) == components(b)
}

/// `parts` with a separator between each two.
pub open spec fn joined(parts: Seq<Seq<char>>) -> Seq<char>
    decreases parts.len(),
{
    if parts.len() == 0 {
        Seq::empty()
    } else if parts.len() == 1 {
        parts[0]
    } else {
        joined(parts.drop_last()) + seq!['/'] + parts.last()
    }
}

/// The text of the path with the components `parts`, from the root where
/// `absolute` is set.
pub open spec fn rendered(absolute: bool, parts: Seq<Seq<char>>) -> Seq<char> {
    if absolute {
        seq!['/'] + joined(parts)
    } else {
        joined(parts)
    }
}

/// The last component of `p`, where `p` has one and it names an entry: it is
/// neither `.` nor `..`.
pub open spec fn file_name(p: Seq<char>) -> Option<Seq<char>> {
    let parts = components(p);
    if parts.len() > 0 && parts.last() != dot() && parts.last() != dot_dot() {
        Some(parts.last())
    } else {
        None
    }
}

/// The path `p` without its last component; `None` where `p` has no
/// component.
pub open spec fn parent(p: Seq<char>) -> Option<Seq<char>> {
    let parts = components(p);
    if parts.len() > 0 {
        Some(rendered(is_absolute(p), parts.drop_last()))
    } else {
        None
    }
}

/// The path `name` as seen from `base`: `name` itself where it is absolute,
/// else `base`, a separator unless `base` is empty or ends in one, and `name`.
pub open spec fn join(base: Seq<char>, name: Seq<char>) -> Seq<char> {
    if is_absolute(name) {
        name
    } else if base.len() == 0 || base.last() == '/' {
        base + name
    } else {
        base + seq!['/'] + name
    }
}

/// Whether the path `p` lies at or below the path `base`: `p` begins with
/// the root where `base` does, and with the components of `base`. Every path
/// lies below the empty relative path.
pub open spec fn starts_with(p: Seq<char>, base: Seq<char>) -> bool {
    if is_absolute(base) {
        is_absolute(p) && components(base).is_prefix_of(components(p))
    } else {
        components(base).len() == 0 || (!is_absolute(p) && components(base).is_prefix_of(
            components(p),
        ))
    }
}

/// The path `p` as seen from `base`: what is left of `p` without the root
/// and the components of `base`; `None` where `p` does not lie at or below
/// `base`.
pub open spec fn relative_to(p: Seq<char>, base: Seq<char>) -> Option<Seq<char>> {
    if starts_with(p, base) {
        Some(
            rendered(
                is_absolute(p) && !is_absolute(base),
                components(p).skip(components(base).len() as int),
            ),
        )
    } else {
        None
    }
}

/// Every text is the same path as itself.
pub proof fn lemma_same_path_reflexive(p: Seq<char>)
    ensures
        same_path(p, p),
{
}

/// Being the same path is symmetric and transitive.
pub proof fn lemma_same_path_equivalence(a: Seq<char>, b: Seq<char>, c: Seq<char>)
    ensures
        same_path(a, b) ==> same_path(b, a),
        same_path(a, b) && same_path(b, c) ==> same_path(a, c),
{
}

/// Whether `part` can stand between separators: it is not empty and holds
/// no separator.
pub open spec fn is_part(part: Seq<char>) -> bool {
    part.len() > 0 && !part.contains('/')
}

/// Whether `parts` can be the components of a path that is absolute or not
/// as `absolute` says: each can stand between separators, and none is `.`
/// but the first of a relative path.
pub open spec fn well_formed(absolute: bool, parts: Seq<Seq<char>>) -> bool {
    forall|i: int|
        0 <= i < parts.len() ==> is_part(#[trigger] parts[i]) && (parts[i] == dot() ==> i == 0
            && !absolute)
}

/// A text without a separator is one segment.
proof fn lemma_one_segment(s: Seq<char>)
    requires
        !s.contains('/'),
    ensures
        first_index(s, '/') == s.len(),
        later_components(s) == (if counts(s) {
            seq![s]
        } else {
            Seq::<Seq<char>>::empty()
        }),
{
    assert forall|j: int| 0 <= j < s.len() implies s[j] != '/' by {
        if s[j] == '/' {
            assert(s.contains('/'));
        }
    }
    lemma_first_index_is(s, '/', s.len() as int);
    assert(s.subrange(0, s.len() as int) == s);
}

/// The first segment of a text that begins with a segment and a separator.
proof fn lemma_leading_segment(s: Seq<char>, t: Seq<char>)
    requires
        !s.contains('/'),
    ensures
        first_index(s + seq!['/'] + t, '/') == s.len(),
        (s + seq!['/'] + t).subrange(0, s.len() as int) == s,
        (s + seq!['/'] + t).subrange(s.len() as int + 1, (s + seq!['/'] + t).len() as int) == t,
{
    let whole = s + seq!['/'] + t;
    assert forall|j: int| 0 <= j < s.len() implies whole[j] != '/' by {
        assert(whole[j] == s[j]);
        if s[j] == '/' {
            assert(s.contains('/'));
        }
    }
    assert(whole[s.len() as int] == '/');
    lemma_first_index_is(whole, '/', s.len() as int);
}

/// Joining unfolds from the left, too.
proof fn lemma_joined_from_left(parts: Seq<Seq<char>>)
    requires
        parts.len() >= 2,
    ensures
        joined(parts) == parts[0] + seq!['/'] + joined(parts.drop_first()),
    decreases parts.len(),
{
    if parts.len() == 2 {
        assert(parts.drop_last() == seq![parts[0]]);
        assert(parts.drop_first() == seq![parts[1]]);
        assert(joined(parts.drop_last()) == parts[0]);
        assert(joined(parts.drop_first()) == parts[1]);
    } else {
        let front = parts.drop_last();
        lemma_joined_from_left(front);
        assert(front.drop_first() == parts.drop_first().drop_last());
        assert(parts.drop_first().last() == parts.last());
        assert(front[0] == parts[0]);
        assert(joined(parts.drop_first()) == joined(front.drop_first()) + seq!['/'] + parts.last());
        assert(joined(parts) == joined(front) + seq!['/'] + parts.last());
        assert(parts[0] + seq!['/'] + joined(front.drop_first()) + seq!['/'] + parts.last()
            == parts[0] + seq!['/'] + (joined(front.drop_first()) + seq!['/'] + parts.last()));
    }
}

/// The later components of joined parts are those parts, where each of them
/// counts.
proof fn lemma_later_components_of_joined(parts: Seq<Seq<char>>)
    requires
        forall|i: int| 0 <= i < parts.len() ==> is_part(#[trigger] parts[i]) && parts[i] != dot(),
    ensures
        later_components(joined(parts)) == parts,
    decreases parts.len(),
{
    if parts.len() == 0 {
        lemma_one_segment(Seq::<char>::empty());
    } else if parts.len() == 1 {
        assert(is_part(parts[0]));
        lemma_one_segment(parts[0]);
        assert(seq![parts[0]] == parts);
    } else {
        let rest = parts.drop_first();
        assert(is_part(parts[0]));
        lemma_joined_from_left(parts);
        lemma_leading_segment(parts[0], joined(rest));
        assert forall|i: int| 0 <= i < rest.len() implies is_part(#[trigger] rest[i]) && rest[i]
            != dot() by {
            assert(rest[i] == parts[i + 1]);
        }
        lemma_later_components_of_joined(rest);
        assert(seq![parts[0]] + rest == parts);
    }
}

/// The text of well-formed components reads back as those components, and
/// is absolute exactly when it was made so.
pub proof fn lemma_rendered_reads_back(absolute: bool, parts: Seq<Seq<char>>)
    requires
        well_formed(absolute, parts),
    ensures
        components(rendered(absolute, parts)) == parts,
        is_absolute(rendered(absolute, parts)) == absolute,
{
    let text = rendered(absolute, parts);
    if absolute {
        assert forall|i: int| 0 <= i < parts.len() implies is_part(#[trigger] parts[i]) && parts[i]
            != dot() by {}
        lemma_later_components_of_joined(parts);
        lemma_leading_segment(Seq::<char>::empty(), joined(parts));
        assert(Seq::<char>::empty() + seq!['/'] + joined(parts) == text);
        assert(Seq::<Seq<char>>::empty() + parts == parts);
    } else if parts.len() == 0 {
        assert(first_index(text, '/') == 0);
    } else {
        let rest = parts.drop_first();
        assert(is_part(parts[0]));
        assert forall|i: int| 0 <= i < rest.len() implies is_part(#[trigger] rest[i]) && rest[i]
            != dot() by {
            assert(rest[i] == parts[i + 1]);
        }
        if parts.len() == 1 {
            lemma_one_segment(parts[0]);
            assert(text.subrange(0, text.len() as int) == text);
            assert(seq![parts[0]] == parts);
        } else {
            lemma_joined_from_left(parts);
            lemma_leading_segment(parts[0], joined(rest));
            lemma_later_components_of_joined(rest);
            assert(seq![parts[0]] + rest == parts);
        }
        assert(text[0] == parts[0][0]);
        if parts[0][0] == '/' {
            assert(parts[0].contains('/'));
        }
    }
}

/// The later components of any text can stand between separators and are
/// not `.`.
proof fn lemma_later_components_are_parts(p: Seq<char>)
    ensures
        forall|i: int|
            0 <= i < later_components(p).len() ==> is_part(#[trigger] later_components(p)[i])
                && later_components(p)[i] != dot(),
    decreases p.len(),
{
    lemma_first_index(p, '/');
    let k = first_index(p, '/');
    let segment = p.subrange(0, k);
    assert(!segment.contains('/')) by {
        if segment.contains('/') {
            let j = choose|j: int| 0 <= j < segment.len() && segment[j] == '/';
            assert(p[j] == '/');
        }
    }
    let here = if counts(segment) {
        seq![segment]
    } else {
        Seq::<Seq<char>>::empty()
    };
    let all = later_components(p);
    if k < p.len() {
        let rest = later_components(p.subrange(k + 1, p.len() as int));
        lemma_later_components_are_parts(p.subrange(k + 1, p.len() as int));
        assert(all == here + rest);
        assert forall|i: int| 0 <= i < all.len() implies is_part(#[trigger] all[i]) && all[i]
            != dot() by {
            if i >= here.len() {
                assert(all[i] == rest[i - here.len()]);
            } else {
                assert(all[i] == segment);
            }
        }
    } else {
        assert(all == here);
    }
}

/// The components of any path are well formed.
pub proof fn lemma_components_are_well_formed(p: Seq<char>)
    ensures
        well_formed(is_absolute(p), components(p)),
{
    lemma_first_index(p, '/');
    let k = first_index(p, '/');
    let segment = p.subrange(0, k);
    assert(!segment.contains('/')) by {
        if segment.contains('/') {
            let j = choose|j: int| 0 <= j < segment.len() && segment[j] == '/';
            assert(p[j] == '/');
        }
    }
    let first = if segment.len() > 0 {
        seq![segment]
    } else {
        Seq::<Seq<char>>::empty()
    };
    let all = components(p);
    if is_absolute(p) {
        assert(k == 0);
    }
    if k < p.len() {
        let rest = later_components(p.subrange(k + 1, p.len() as int));
        lemma_later_components_are_parts(p.subrange(k + 1, p.len() as int));
        assert(all == first + rest);
        assert forall|i: int| 0 <= i < all.len() implies is_part(#[trigger] all[i]) && (all[i]
            == dot() ==> i == 0 && !is_absolute(p)) by {
            if i >= first.len() {
                assert(all[i] == rest[i - first.len()]);
            } else {
                assert(all[i] == segment);
            }
        }
    } else {
        assert(all == first);
    }
}

/// The parent of a path has the components of the path but the last, and is
/// absolute exactly when the path is.
pub proof fn lemma_parent_components(p: Seq<char>)
    requires
        components(p).len() > 0,
    ensures
        parent(p) matches Some(dir) && components(dir) == components(p).drop_last() && is_absolute(
            dir,
        ) == is_absolute(p),
{
    lemma_components_are_well_formed(p);
    let parts = components(p);
    let front = parts.drop_last();
    assert forall|i: int| 0 <= i < front.len() implies is_part(#[trigger] front[i]) && (front[i]
        == dot() ==> i == 0 && !is_absolute(p)) by {
        assert(front[i] == parts[i]);
    }
    lemma_rendered_reads_back(is_absolute(p), front);
}

/// The later components of a text, a separator and another text are those
/// of the first text, then those of the second.
proof fn lemma_later_components_concat(s: Seq<char>, t: Seq<char>)
    ensures
        later_components(s + seq!['/'] + t) == later_components(s) + later_components(t),
    decreases s.len(),
{
    lemma_first_index(s, '/');
    let k = first_index(s, '/');
    let whole = s + seq!['/'] + t;
    let segment = s.subrange(0, k);
    assert forall|j: int| 0 <= j < k implies whole[j] != '/' by {
        assert(whole[j] == s[j]);
    }
    if k < s.len() {
        assert(whole[k] == '/');
        lemma_first_index_is(whole, '/', k);
        let rest = s.subrange(k + 1, s.len() as int);
        assert(whole.subrange(0, k) == segment);
        assert(whole.subrange(k + 1, whole.len() as int) == rest + seq!['/'] + t);
        lemma_later_components_concat(rest, t);
        let here = if counts(segment) {
            seq![segment]
        } else {
            Seq::<Seq<char>>::empty()
        };
        assert(here + (later_components(rest) + later_components(t)) == here + later_components(
            rest,
        ) + later_components(t));
    } else {
        assert(whole[k] == '/');
        lemma_first_index_is(whole, '/', k);
        assert(whole.subrange(0, k) == s);
        assert(segment == s);
        assert(whole.subrange(k + 1, whole.len() as int) == t);
    }
}

/// The components of a text, a separator and another text are those of the
/// first text, then the later components of the second.
proof fn lemma_components_concat(s: Seq<char>, t: Seq<char>)
    ensures
        components(s + seq!['/'] + t) == components(s) + later_components(t),
        s.len() > 0 ==> is_absolute(s + seq!['/'] + t) == is_absolute(s),
{
    lemma_first_index(s, '/');
    let k = first_index(s, '/');
    let whole = s + seq!['/'] + t;
    let segment = s.subrange(0, k);
    assert forall|j: int| 0 <= j < k implies whole[j] != '/' by {
        assert(whole[j] == s[j]);
    }
    assert(whole[k] == '/');
    lemma_first_index_is(whole, '/', k);
    if k < s.len() {
        let rest = s.subrange(k + 1, s.len() as int);
        assert(whole.subrange(0, k) == segment);
        assert(whole.subrange(k + 1, whole.len() as int) == rest + seq!['/'] + t);
        lemma_later_components_concat(rest, t);
        let first = if segment.len() > 0 {
            seq![segment]
        } else {
            Seq::<Seq<char>>::empty()
        };
        assert(first + (later_components(rest) + later_components(t)) == first + later_components(
            rest,
        ) + later_components(t));
    } else {
        assert(whole.subrange(0, k) == s);
        assert(segment == s);
        assert(whole.subrange(k + 1, whole.len() as int) == t);
    }
    if s.len() > 0 {
        assert(whole[0] == s[0]);
    }
}

/// A name joined to a path adds one component: the name. The name can stand
/// between separators and is not `.`.
pub proof fn lemma_join_adds_a_component(base: Seq<char>, name: Seq<char>)
    requires
        is_part(name),
        name != dot(),
    ensures
        components(join(base, name)) == components(base).push(name),
        is_absolute(join(base, name)) == is_absolute(base),
{
    assert(name[0] != '/') by {
        if name[0] == '/' {
            assert(name.contains('/'));
        }
    }
    lemma_one_segment(name);
    if base.len() == 0 {
        assert(base + name == name);
        assert(first_index(base, '/') == 0);
        assert(name.subrange(0, name.len() as int) == name);
        assert(Seq::<Seq<char>>::empty().push(name) == seq![name]);
    } else if base.last() == '/' {
        let front = base.drop_last();
        assert(base == front + seq!['/']);
        assert(base + name == front + seq!['/'] + name);
        lemma_components_concat(front, name);
        lemma_components_concat(front, Seq::<char>::empty());
        assert(front + seq!['/'] + Seq::<char>::empty() == base);
        lemma_one_segment(Seq::<char>::empty());
        assert(components(front) + Seq::<Seq<char>>::empty() == components(front));
        assert(components(front) + seq![name] == components(front).push(name));
        assert((base + name)[0] == base[0]);
    } else {
        lemma_components_concat(base, name);
        assert(components(base) + seq![name] == components(base).push(name));
    }
}

/// Tells whether a segment that does not begin the path is a component.
fn segment_counts(segment: &[char]) -> (r: bool)
    ensures
        r == counts(segment@),
{
    if segment.len() == 0 {
        false
    } else if segment.len() == 1 && segment[0] == '.' {
        assert(segment@ == dot());
        false
    } else {
        true
    }
}

/// Tells whether a component is `.` or `..`.
fn is_dots(part: &[char]) -> (r: bool)
    ensures
        r == (part@ == dot() || part@ == dot_dot()),
{
    if part.len() == 1 && part[0] == '.' {
        assert(part@ == dot());
        true
    } else if part.len() == 2 && part[0] == '.' && part[1] == '.' {
        assert(part@ == dot_dot());
        true
    } else {
        false
    }
}

/// The components of `p`, in order.
pub fn split_components<'a>(p: &'a [char]) -> (v: Vec<&'a [char]>)
    ensures
        slice_texts(v@) == components(p@),
{
    let n = p.len();
    let mut v: Vec<&'a [char]> = Vec::new();
    let k0 = find_char(p, '/');
    let first = slice_subrange(p, 0, k0);
    assert(slice_texts(v@) == Seq::<Seq<char>>::empty());
    if first.len() > 0 {
        v.push(first);
        assert(slice_texts(v@) == seq![first@]);
    }
    if k0 >= n {
        return v;
    }
    let mut pos: usize = k0 + 1;
    let mut more = true;
    while more
        invariant
            n == p.len(),
            pos <= n,
            more ==> components(p@) == slice_texts(v@) + later_components(p@.subrange(pos as int, n as int)),
            !more ==> components(p@) == slice_texts(v@),
        decreases n - pos + (if more { 1int } else { 0int }),
    {
        let rest = slice_subrange(p, pos, n);
        let k = find_char(rest, '/');
        let segment = slice_subrange(rest, 0, k);
        let ghost before = slice_texts(v@);
        if segment_counts(segment) {
            v.push(segment);
            assert(slice_texts(v@) == before + seq![segment@]);
        } else {
            assert(slice_texts(v@) == before + Seq::<Seq<char>>::empty());
        }
        if k < rest.len() {
            proof {
                let tail = rest@.subrange(k + 1, rest@.len() as int);
                assert(tail == p@.subrange(pos + k + 1, n as int));
            }
            pos = pos + k + 1;
        } else {
            more = false;
        }
    }
    v
}

/// Whether the characters of `a` and of `b` are the same path.
pub fn same_path_chars(a: &[char], b: &[char]) -> (r: bool)
    ensures
        r == same_path(a@, b@),
{
    let a_abs = a.len() > 0 && a[0] == '/';
    let b_abs = b.len() > 0 && b[0] == '/';
    if a_abs != b_abs {
        return false;
    }
    let xs = split_components(a);
    let ys = split_components(b);
    if xs.len() != ys.len() {
        return false;
    }
    let mut i: usize = 0;
    while i < xs.len()
        invariant
            i <= xs.len(),
            xs.len() == ys.len(),
            slice_texts(xs@) == components(a@),
            slice_texts(ys@) == components(b@),
            forall|j: int| 0 <= j < i ==> slice_texts(xs@)[j] == slice_texts(ys@)[j],
        decreases xs.len() - i,
    {
        if !same_text(xs[i], ys[i]) {
            assert(slice_texts(xs@)[i as int] != slice_texts(ys@)[i as int]);
            return false;
        }
        i += 1;
    }
    assert(slice_texts(xs@) =~= slice_texts(ys@));
    true
}

/// Whether `a` and `b` are the same path.
pub fn paths_equal(a: &str, b: &str) -> (r: bool)
    ensures
        r == same_path(a@, b@),
{
    let x = chars_of(a);
    let y = chars_of(b);
    same_path_chars(x.as_slice(), y.as_slice())
}

/// The text of the path with the first `count` of the components `parts`.
fn render(absolute: bool, parts: &Vec<&[char]>, count: usize) -> (r: String)
    requires
        count <= parts.len(),
    ensures
        r@ == rendered(absolute, slice_texts(parts@).take(count as int)),
{
    let mut r = String::new();
    let ghost lead: Seq<char> = if absolute {
        seq!['/']
    } else {
        Seq::empty()
    };
    if absolute {
        r.push('/');
    }
    assert(r@ == lead);
    let mut i: usize = 0;
    assert(slice_texts(parts@).take(0) == Seq::<Seq<char>>::empty());
    assert(lead + Seq::<char>::empty() == lead);
    while i < count
        invariant
            i <= count <= parts.len(),
            r@ == lead + joined(slice_texts(parts@).take(i as int)),
        decreases count - i,
    {
        let ghost sofar = slice_texts(parts@).take(i as int);
        let ghost next = slice_texts(parts@).take(i + 1);
        assert(next.drop_last() == sofar);
        assert(next.last() == parts@[i as int]@);
        if i > 0 {
            r.push('/');
        }
        append_chars(&mut r, parts[i]);
        proof {
            if i == 0 {
                assert(joined(sofar) == Seq::<char>::empty());
                assert(joined(next) == next[0]);
                assert(lead + Seq::<char>::empty() + next[0] == lead + joined(next));
            } else {
                assert(joined(next) == joined(sofar) + seq!['/'] + next.last());
                assert((lead + joined(sofar)).push('/') + next.last() == lead + joined(next));
            }
        }
        i += 1;
    }
    r
}

/// The last component of `p`, where `p` has one and it names an entry.
pub fn file_name_of(p: &str) -> (r: Option<String>)
    ensures
        match file_name(p@) {
            Some(name) => r matches Some(x) && x@ == name,
            None => r is None,
        },
{
    let chars = chars_of(p);
    let parts = split_components(chars.as_slice());
    if parts.len() == 0 {
        return None;
    }
    let last = parts[parts.len() - 1];
    assert(last@ == components(p@).last());
    if is_dots(last) {
        None
    } else {
        Some(crate::text::string_of(last))
    }
}

/// The path `p` without its last component; `None` where `p` has no
/// component.
pub fn parent_of(p: &str) -> (r: Option<String>)
    ensures
        match parent(p@) {
            Some(dir) => r matches Some(x) && x@ == dir,
            None => r is None,
        },
{
    let chars = chars_of(p);
    let absolute = chars.len() > 0 && chars[0] == '/';
    let parts = split_components(chars.as_slice());
    if parts.len() == 0 {
        return None;
    }
    assert(slice_texts(parts@).take(parts.len() - 1) == components(p@).drop_last());
    Some(render(absolute, &parts, parts.len() - 1))
}

/// The path `name` as seen from `base`.
pub fn join_paths(base: &str, name: &str) -> (r: String)
    ensures
        r@ == join(base@, name@),
{
    let b = chars_of(base);
    let n = chars_of(name);
    if n.len() > 0 && n[0] == '/' {
        return name.to_owned();
    }
    let mut r = base.to_owned();
    if b.len() > 0 && b[b.len() - 1] != '/' {
        r.push('/');
    }
    append_chars(&mut r, n.as_slice());
    r
}

/// Whether the path `p` lies at or below the path `base`.
pub fn path_starts_with(p: &str, base: &str) -> (r: bool)
    ensures
        r == starts_with(p@, base@),
{
    let x = chars_of(p);
    let y = chars_of(base);
    let x_abs = x.len() > 0 && x[0] == '/';
    let y_abs = y.len() > 0 && y[0] == '/';
    let xs = split_components(x.as_slice());
    let ys = split_components(y.as_slice());
    if y_abs {
        x_abs && has_leading(&xs, &ys)
    } else {
        ys.len() == 0 || (!x_abs && has_leading(&xs, &ys))
    }
}

/// Whether the components `parts` begin with the components `lead`.
fn has_leading(parts: &Vec<&[char]>, lead: &Vec<&[char]>) -> (r: bool)
    ensures
        r == slice_texts(lead@).is_prefix_of(slice_texts(parts@)),
{
    if lead.len() > parts.len() {
        return false;
    }
    let mut i: usize = 0;
    while i < lead.len()
        invariant
            i <= lead.len() <= parts.len(),
            forall|j: int| 0 <= j < i ==> slice_texts(parts@)[j] == slice_texts(lead@)[j],
        decreases lead.len() - i,
    {
        if !same_text(parts[i], lead[i]) {
            assert(slice_texts(parts@).subrange(0, lead.len() as int)[i as int] != slice_texts(lead@)[i as int]);
            return false;
        }
        i += 1;
    }
    assert(slice_texts(parts@).subrange(0, lead.len() as int) =~= slice_texts(lead@));
    true
}

/// The path `p` as seen from `base`; `None` where `p` does not lie at or
/// below `base`.
pub fn strip_base(p: &str, base: &str) -> (r: Option<String>)
    ensures
        match relative_to(p@, base@) {
            Some(rest) => r matches Some(x) && x@ == rest,
            None => r is None,
        },
{
    let x = chars_of(p);
    let y = chars_of(base);
    let x_abs = x.len() > 0 && x[0] == '/';
    let y_abs = y.len() > 0 && y[0] == '/';
    let xs = split_components(x.as_slice());
    let ys = split_components(y.as_slice());
    let below = if y_abs {
        x_abs && has_leading(&xs, &ys)
    } else {
        ys.len() == 0 || (!x_abs && has_leading(&xs, &ys))
    };
    if !below {
        return None;
    }
    let mut rest: Vec<&[char]> = Vec::new();
    let mut i: usize = ys.len();
    assert(slice_texts(rest@) == slice_texts(xs@).subrange(ys.len() as int, i as int));
    while i < xs.len()
        invariant
            ys.len() <= i <= xs.len(),
            slice_texts(rest@) == slice_texts(xs@).subrange(ys.len() as int, i as int),
        decreases xs.len() - i,
    {
        let ghost before = slice_texts(rest@);
        rest.push(xs[i]);
        assert(slice_texts(rest@) == before.push(xs@[i as int]@));
        assert(before.push(slice_texts(xs@)[i as int]) == slice_texts(xs@).subrange(ys.len() as int, i + 1));
        i += 1;
    }
    assert(slice_texts(rest@) == components(p@).skip(components(base@).len() as int));
    assert(slice_texts(rest@).take(rest.len() as int) == slice_texts(rest@));
    Some(render(x_abs && !y_abs, &rest, rest.len()))
}

} // verus!
