//! The order of texts, and lists that are kept in that order without
//! repetitions.
//!
//! Texts are ordered as in a dictionary, character by character, by the
//! number of each character; a text that is the beginning of another comes
//! first.

use crate::text::{chars_of, texts_of};
use vstd::prelude::*;

verus! {

/// Whether `a` comes before `b`.
pub open spec fn precedes(a: Seq<char>, b: Seq<char>) -> bool
    decreases a.len(),
{
    if a.len() == 0 {
        b.len() > 0
    } else if b.len() == 0 {
        false
    } else if a[0] != b[0] {
        (a[0] as u32) < (b[0] as u32)
    } else {
        precedes(a.drop_first(), b.drop_first())
    }
}

/// Whether each text of `v` comes before all that follow it. Such a list
/// holds no text twice.
pub open spec fn ascending(v: Seq<Seq<char>>) -> bool {
    forall|i: int, j: int| 0 <= i < j < v.len() ==> precedes(#[trigger] v[i], #[trigger] v[j])
}

/// No text comes before itself.
pub proof fn lemma_precedes_irreflexive(a: Seq<char>)
    ensures
        !precedes(a, a),
    decreases a.len(),
{
    if a.len() > 0 {
        lemma_precedes_irreflexive(a.drop_first());
    }
}

/// What comes before a text comes before all that the text comes before.
pub proof fn lemma_precedes_transitive(a: Seq<char>, b: Seq<char>, c: Seq<char>)
    requires
        precedes(a, b),
        precedes(b, c),
    ensures
        precedes(a, c),
    decreases a.len(),
{
    if a.len() > 0 && b.len() > 0 && c.len() > 0 {
        if a[0] == b[0] && b[0] == c[0] {
            lemma_precedes_transitive(a.drop_first(), b.drop_first(), c.drop_first());
        }
    }
}

/// Of two different texts one comes before the other.
pub proof fn lemma_precedes_total(a: Seq<char>, b: Seq<char>)
    ensures
        precedes(a, b) || a == b || precedes(b, a),
    decreases a.len(),
{
    if a.len() > 0 && b.len() > 0 {
        if a[0] == b[0] {
            lemma_precedes_total(a.drop_first(), b.drop_first());
            if a.drop_first() == b.drop_first() {
                assert(a =~= seq![a[0]] + a.drop_first());
                assert(b =~= seq![b[0]] + b.drop_first());
            }
        } else {
            let x: char = a[0];
            let y: char = b[0];
            vstd::utf8::char_u32_cast(x, x as u32);
            vstd::utf8::char_u32_cast(y, y as u32);
            assert((x as u32) != (y as u32));
        }
    } else if a.len() == 0 && b.len() == 0 {
        assert(a =~= b);
    }
}

/// Tells whether `a` comes before `b`.
pub fn text_precedes(a: &[char], b: &[char]) -> (r: bool)
    ensures
        r == precedes(a@, b@),
{
    let mut i: usize = 0;
    assert(a@.skip(0) == a@);
    assert(b@.skip(0) == b@);
    while i < a.len() && i < b.len()
        invariant
            i <= a.len(),
            i <= b.len(),
            precedes(a@, b@) == precedes(a@.skip(i as int), b@.skip(i as int)),
        decreases a.len() - i,
    {
        let x = a[i];
        let y = b[i];
        assert(a@.skip(i as int)[0] == x);
        assert(b@.skip(i as int)[0] == y);
        if x != y {
            return (x as u32) < (y as u32);
        }
        assert(a@.skip(i as int).drop_first() == a@.skip(i + 1));
        assert(b@.skip(i as int).drop_first() == b@.skip(i + 1));
        i += 1;
    }
    i >= a.len() && i < b.len()
}

/// Puts `item` into the ascending list `v`, unless `v` holds it already.
pub fn insert_ascending(v: &mut Vec<String>, item: String)
    requires
        ascending(texts_of(old(v)@)),
    ensures
        ascending(texts_of(final(v)@)),
        forall|t: Seq<char>|
            texts_of(final(v)@).contains(t) <==> (texts_of(old(v)@).contains(t) || t == item@),
{
    let ghost before = texts_of(v@);
    let wanted = chars_of(item.as_str());
    let mut p: usize = 0;
    let mut found = false;
    while p < v.len() && !found
        invariant
            p <= v.len(),
            v@ == old(v)@,
            wanted@ == item@,
            before == texts_of(v@),
            forall|k: int| 0 <= k < p ==> precedes(#[trigger] before[k], item@),
            found ==> p < v.len() && !precedes(before[p as int], item@),
        decreases v.len() - p + (if found { 0int } else { 1int }),
    {
        let here = chars_of(v[p].as_str());
        assert(here@ == before[p as int]);
        if text_precedes(here.as_slice(), wanted.as_slice()) {
            p += 1;
        } else {
            found = true;
        }
    }
    if p < v.len() {
        if v[p] == item {
            assert(before[p as int] == item@);
            assert forall|t: Seq<char>| before.contains(t) || t == item@ implies before.contains(
                t,
            ) by {}
            return ;
        }
    }
    v.insert(p, item);
    let ghost after = texts_of(v@);
    proof {
        assert(after.len() == before.len() + 1);
        assert(after[p as int] == item@);
        assert forall|k: int| 0 <= k < p implies after[k] == before[k] by {}
        assert forall|k: int| p < k < after.len() implies after[k] == before[k - 1] by {}
        if p < before.len() {
            lemma_precedes_total(before[p as int], item@);
            assert(precedes(item@, before[p as int]));
        }
        assert forall|i: int, j: int| 0 <= i < j < after.len() implies precedes(
            #[trigger] after[i],
            #[trigger] after[j],
        ) by {
            if j < p {
            } else if j == p {
            } else if i < p {
                assert(precedes(before[i], before[j - 1]));
            } else if i == p {
                if j - 1 > p {
                    assert(precedes(before[p as int], before[j - 1]));
                    lemma_precedes_transitive(item@, before[p as int], before[j - 1]);
                }
            } else {
                assert(precedes(before[i - 1], before[j - 1]));
            }
        }
        assert forall|t: Seq<char>| after.contains(t) <==> (before.contains(t) || t == item@) by {
            if after.contains(t) {
                let k = choose|k: int| 0 <= k < after.len() && after[k] == t;
                if k < p {
                    assert(before[k] == t);
                } else if k > p {
                    assert(before[k - 1] == t);
                }
            }
            if before.contains(t) {
                let k = choose|k: int| 0 <= k < before.len() && before[k] == t;
                if k < p {
                    assert(after[k] == t);
                } else {
                    assert(after[k + 1] == t);
                }
            }
            if t == item@ {
                assert(after[p as int] == t);
            }
        }
    }
}

} // verus!
