//! The order `String` sorts by: lexicographic by character code, which is the
//! byte order of UTF-8. Sorted sets of texts are kept as strictly increasing
//! lists.
use vstd::prelude::*;
use vstd::string::StrSliceExecFns;

use crate::codec::texts_of;

verus! {

/// `a` sorts before `b`.
pub open spec fn text_lt(a: Seq<char>, b: Seq<char>) -> bool
    decreases a.len(),
{
    if a.len() == 0 {
        b.len() > 0
    } else if b.len() == 0 {
        false
    } else if a[0] != b[0] {
        (a[0] as int) < (b[0] as int)
    } else {
        text_lt(a.drop_first(), b.drop_first())
    }
}

/// No text sorts before itself.
pub proof fn lemma_text_lt_irreflexive(a: Seq<char>)
    ensures
        !text_lt(a, a),
    decreases a.len(),
{
    if a.len() > 0 {
        lemma_text_lt_irreflexive(a.drop_first());
    }
}

/// The order is transitive.
pub proof fn lemma_text_lt_transitive(a: Seq<char>, b: Seq<char>, c: Seq<char>)
    requires
        text_lt(a, b),
        text_lt(b, c),
    ensures
        text_lt(a, c),
    decreases a.len(),
{
    if a.len() > 0 && b.len() > 0 && c.len() > 0 && a[0] == b[0] && b[0] == c[0] {
        lemma_text_lt_transitive(a.drop_first(), b.drop_first(), c.drop_first());
    }
}

/// Two different texts are ordered one way or the other.
pub proof fn lemma_text_lt_total(a: Seq<char>, b: Seq<char>)
    requires
        a != b,
    ensures
        text_lt(a, b) || text_lt(b, a),
    decreases a.len(),
{
    if a.len() == 0 {
        if b.len() == 0 {
            assert(a =~= b);
        }
    } else if b.len() == 0 {
    } else if a[0] != b[0] {
    } else {
        if a.drop_first() =~= b.drop_first() {
            assert forall|i: int| 0 <= i < a.len() implies a[i] == b[i] by {
                if i > 0 {
                    assert(a[i] == a.drop_first()[i - 1]);
                    assert(b[i] == b.drop_first()[i - 1]);
                }
            }
            assert(a =~= b);
        }
        lemma_text_lt_total(a.drop_first(), b.drop_first());
    }
}

/// Whether `a` sorts before `b`, as `a < b` on strings answers.
pub fn text_before(a: &str, b: &str) -> (r: bool)
    ensures
        r == text_lt(a@, b@),
{
    let n = a.unicode_len();
    let m = b.unicode_len();
    let mut i: usize = 0;
    assert(a@.subrange(0, n as int) =~= a@);
    assert(b@.subrange(0, m as int) =~= b@);
    while i < n && i < m
        invariant
            n == a@.len(),
            m == b@.len(),
            i <= n,
            i <= m,
            text_lt(a@, b@) == text_lt(a@.subrange(i as int, n as int), b@.subrange(i as int, m as int)),
        decreases n - i,
    {
        let x = a.get_char(i);
        let y = b.get_char(i);
        let ghost ra = a@.subrange(i as int, n as int);
        let ghost rb = b@.subrange(i as int, m as int);
        assert(ra[0] == x && rb[0] == y);
        if x != y {
            assert((x as u32) as int == x as int && (y as u32) as int == y as int);
            return (x as u32) < (y as u32);
        }
        assert(ra.drop_first() =~= a@.subrange(i + 1, n as int));
        assert(rb.drop_first() =~= b@.subrange(i + 1, m as int));
        i = i + 1;
    }
    assert(i == n ==> a@.subrange(i as int, n as int).len() == 0);
    assert(i == m ==> b@.subrange(i as int, m as int).len() == 0);
    n < m
}

/// Texts in strictly increasing order.
pub open spec fn strictly_sorted(s: Seq<Seq<char>>) -> bool {
    forall|i: int, j: int| 0 <= i < j < s.len() ==> text_lt(#[trigger] s[i], #[trigger] s[j])
}

/// Inserting a text after every smaller one and before every larger one
/// keeps a list strictly increasing.
pub proof fn lemma_insert_keeps_sorted(before: Seq<Seq<char>>, i: int, s: Seq<char>)
    requires
        strictly_sorted(before),
        0 <= i <= before.len(),
        forall|j: int| 0 <= j < i ==> text_lt(#[trigger] before[j], s),
        i < before.len() ==> text_lt(s, before[i]),
    ensures
        strictly_sorted(before.insert(i, s)),
{
    let after = before.insert(i, s);
    assert forall|a: int, b: int| 0 <= a < b < after.len() implies text_lt(
        #[trigger] after[a],
        #[trigger] after[b],
    ) by {
        if b < i {
        } else if b == i {
        } else if a < i {
            assert(after[b] == before[b - 1]);
            if b - 1 > i {
                assert(text_lt(before[i], before[b - 1]));
                lemma_text_lt_transitive(s, before[i], before[b - 1]);
            }
            lemma_text_lt_transitive(before[a], s, before[b - 1]);
        } else if a == i {
            assert(after[b] == before[b - 1]);
            if b - 1 > i {
                assert(text_lt(before[i], before[b - 1]));
                lemma_text_lt_transitive(s, before[i], before[b - 1]);
            }
        } else {
            assert(after[a] == before[a - 1]);
            assert(after[b] == before[b - 1]);
        }
    }
}

/// Inserts a text into a strictly increasing list of texts, unless it is
/// there already: the list stays strictly increasing and holds the texts it
/// held and the new one.
pub fn insert_sorted(v: &mut Vec<String>, s: &str)
    requires
        strictly_sorted(texts_of(old(v)@)),
    ensures
        strictly_sorted(texts_of(final(v)@)),
        forall|t: Seq<char>|
            #[trigger] texts_of(final(v)@).contains(t) <==> (texts_of(old(v)@).contains(t) || t
                == s@),
{
    let ghost before = texts_of(v@);
    let mut i: usize = 0;
    while i < v.len() && text_before(v[i].as_str(), s)
        invariant
            before == texts_of(v@),
            i <= v@.len(),
            forall|j: int| 0 <= j < i ==> text_lt(#[trigger] before[j], s@),
        decreases v@.len() - i,
    {
        i = i + 1;
    }
    if i < v.len() && crate::text::text_is(v[i].as_str(), s) {
        assert(before[i as int] == s@);
        assert forall|t: Seq<char>| #[trigger] before.contains(t) <==> (before.contains(t) || t == s@) by {
            if t == s@ {
                assert(before[i as int] == t);
            }
        }
        return;
    }
    proof {
        if i < before.len() {
            assert(before[i as int] != s@);
            lemma_text_lt_total(before[i as int], s@);
        }
    }
    v.insert(i, s.to_owned());
    let ghost after = texts_of(v@);
    assert(after =~= before.insert(i as int, s@));
    proof {
        lemma_insert_keeps_sorted(before, i as int, s@);
    }
    assert forall|t: Seq<char>| #[trigger] after.contains(t) <==> (before.contains(t) || t == s@) by {
        if after.contains(t) {
            let k = choose|k: int| 0 <= k < after.len() && after[k] == t;
            if k < i {
                assert(before[k] == t);
            } else if k > i {
                assert(before[k - 1] == t);
            }
        }
        if before.contains(t) {
            let k = choose|k: int| 0 <= k < before.len() && before[k] == t;
            if k < i {
                assert(after[k] == t);
            } else {
                assert(after[k + 1] == t);
            }
        }
        if t == s@ {
            assert(after[i as int] == t);
        }
    }
}

} // verus!
