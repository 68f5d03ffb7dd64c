//! The order of texts, and sorted lists without repetition.

use vstd::prelude::*;

use crate::text;

verus! {

/// Whether `a` comes before `b`: at the first position where they differ it
/// has the lesser character, or it is a proper prefix. This is the order of
/// `str`.
pub open spec fn before(a: Seq<char>, b: Seq<char>) -> bool
    decreases a.len(),
{
    if b.len() == 0 {
        false
    } else if a.len() == 0 {
        true
    } else if a[0] != b[0] {
        a[0] < b[0]
    } else {
        before(a.skip(1), b.skip(1))
    }
}

/// A list in strictly ascending order: sorted, and without repetition.
pub open spec fn ascending(s: Seq<Seq<char>>) -> bool {
    forall|i: int, j: int|
        0 <= i < j < s.len() ==> before(#[trigger] s[i], #[trigger] s[j])
}

/// The order is transitive.
pub proof fn lemma_transitive(a: Seq<char>, b: Seq<char>, c: Seq<char>)
    requires
        before(a, b),
        before(b, c),
    ensures
        before(a, c),
    decreases a.len(),
{
    if a.len() > 0 && a[0] == b[0] && b[0] == c[0] {
        lemma_transitive(a.skip(1), b.skip(1), c.skip(1));
    }
}

/// The order is irreflexive.
pub proof fn lemma_irreflexive(a: Seq<char>)
    ensures
        !before(a, a),
    decreases a.len(),
{
    if a.len() > 0 {
        lemma_irreflexive(a.skip(1));
    }
}

/// Of two different texts one comes before the other.
pub proof fn lemma_total(a: Seq<char>, b: Seq<char>)
    ensures
        before(a, b) || before(b, a) || a == b,
    decreases a.len(),
{
    if a.len() == 0 || b.len() == 0 {
        if a.len() == 0 && b.len() == 0 {
            assert(a =~= b);
        }
    } else if a[0] == b[0] {
        lemma_total(a.skip(1), b.skip(1));
        if a.skip(1) == b.skip(1) {
            assert forall|i: int| 0 <= i < a.len() implies a[i] == b[i] by {
                if i > 0 {
                    assert(a[i] == a.skip(1)[i - 1]);
                    assert(b[i] == b.skip(1)[i - 1]);
                }
            }
            assert(a.skip(1).len() == b.skip(1).len());
            assert(a =~= b);
        }
    }
}

/// Whether `a` comes before `b`.
pub fn precedes(a: &str, b: &str) -> (r: bool)
    ensures
        r == before(a@, b@),
{
    let x = text::chars_of(a);
    let y = text::chars_of(b);
    let mut i: usize = 0;
    assert(x@.skip(0) =~= x@);
    assert(y@.skip(0) =~= y@);
    while i < x.len() && i < y.len()
        invariant
            i <= x.len(),
            i <= y.len(),
            before(x@.skip(i as int), y@.skip(i as int)) == before(a@, b@),
        decreases x.len() - i,
    {
        proof {
            assert(x@.skip(i as int)[0] == x@[i as int]);
            assert(y@.skip(i as int)[0] == y@[i as int]);
            assert(x@.skip(i as int).skip(1) =~= x@.skip(i + 1));
            assert(y@.skip(i as int).skip(1) =~= y@.skip(i + 1));
        }
        if x[i] != y[i] {
            return x[i] < y[i];
        }
        i = i + 1;
    }
    i < y.len()
}

/// Put `item` at its place in an ascending list, unless it is there.
pub fn insert_ascending(list: &mut Vec<String>, item: String)
    requires
        ascending(text::views(old(list)@)),
    ensures
        ascending(text::views(final(list)@)),
        text::views(final(list)@).to_set() == text::views(old(list)@).to_set().insert(item@),
{
    let ghost start = text::views(list@);
    let n = list.len();
    let mut i: usize = 0;
    while i < n && precedes(list[i].as_str(), item.as_str())
        invariant
            i <= n,
            n == list@.len(),
            start == text::views(list@),
            ascending(start),
            forall|k: int| 0 <= k < i ==> before(#[trigger] start[k], item@),
        decreases n - i,
    {
        assert(start[i as int] == list@[i as int]@);
        i = i + 1;
    }
    if i < n && text::same(list[i].as_str(), item.as_str()) {
        proof {
            assert(start[i as int] == item@);
            assert(start.to_set().insert(item@) =~= start.to_set());
        }
        return;
    }
    let ghost added = item@;
    list.insert(i, item);
    proof {
        let after = text::views(list@);
        assert(after =~= start.insert(i as int, added));
        if i < n {
            assert(start[i as int] == old(list)@[i as int]@);
            lemma_total(start[i as int], added);
        }
        assert forall|k: int| i <= k < n implies before(added, #[trigger] start[k]) by {
            if k > i {
                lemma_transitive(added, start[i as int], start[k]);
            }
        }
        assert forall|a: int, b: int| 0 <= a < b < after.len() implies before(
            #[trigger] after[a],
            #[trigger] after[b],
        ) by {
            if a < i && b < i {
                assert(after[a] == start[a] && after[b] == start[b]);
            } else if a < i && b == i {
                assert(after[a] == start[a]);
            } else if a < i {
                assert(after[a] == start[a] && after[b] == start[b - 1]);
            } else if a == i {
                assert(after[b] == start[b - 1]);
            } else {
                assert(after[a] == start[a - 1] && after[b] == start[b - 1]);
            }
        }
        assert(after.to_set() =~= start.to_set().insert(added)) by {
            assert forall|x: Seq<char>| #[trigger] after.contains(x) <==> (start.contains(x) || x
                == added) by {
                if start.contains(x) {
                    let k = choose|k: int| 0 <= k < start.len() && start[k] == x;
                    if k < i {
                        assert(after[k] == x);
                    } else {
                        assert(after[k + 1] == x);
                    }
                }
                if after.contains(x) && x != added {
                    let k = choose|k: int| 0 <= k < after.len() && after[k] == x;
                    if k < i {
                        assert(start[k] == x);
                    } else {
                        assert(start[k - 1] == x);
                    }
                }
                assert(after[i as int] == added);
            }
        }
    }
}

proof fn lemma_first_is_least(s: Seq<Seq<char>>, x: Seq<char>)
    requires
        ascending(s),
        s.contains(x),
        s[0] != x,
    ensures
        before(s[0], x),
{
    let i = choose|i: int| 0 <= i < s.len() && s[i] == x;
    assert(before(s[0], s[i]));
}

/// An ascending list is determined by the texts that it holds.
pub proof fn ascending_lists_are_unique(a: Seq<Seq<char>>, b: Seq<Seq<char>>)
    requires
        ascending(a),
        ascending(b),
        a.to_set() == b.to_set(),
    ensures
        a == b,
    decreases a.len(),
{
    if a.len() == 0 {
        if b.len() > 0 {
            assert(b.to_set().contains(b[0])) by {
                assert(b.contains(b[0]));
            }
            assert(a.to_set().contains(b[0]));
            assert(false);
        }
        assert(a =~= b);
    } else {
        assert(a.contains(a[0]));
        assert(a.to_set().contains(a[0]));
        assert(b.contains(a[0]));
        assert(b.contains(b[0]));
        assert(b.to_set().contains(b[0]));
        assert(a.contains(b[0]));
        if a[0] != b[0] {
            lemma_first_is_least(a, b[0]);
            lemma_first_is_least(b, a[0]);
            lemma_transitive(a[0], b[0], a[0]);
            lemma_irreflexive(a[0]);
        }
        let x = a.skip(1);
        let y = b.skip(1);
        assert forall|i: int, j: int| 0 <= i < j < x.len() implies before(
            #[trigger] x[i],
            #[trigger] x[j],
        ) by {
            assert(before(a[i + 1], a[j + 1]));
        }
        assert forall|i: int, j: int| 0 <= i < j < y.len() implies before(
            #[trigger] y[i],
            #[trigger] y[j],
        ) by {
            assert(before(b[i + 1], b[j + 1]));
        }
        assert(x.to_set() =~= y.to_set()) by {
            assert forall|t: Seq<char>| #[trigger] x.contains(t) <==> y.contains(t) by {
                if x.contains(t) {
                    let k = choose|k: int| 0 <= k < x.len() && x[k] == t;
                    assert(a[k + 1] == t);
                    assert(before(a[0], a[k + 1]));
                    lemma_irreflexive(t);
                    assert(a.to_set().contains(t)) by {
                        assert(a.contains(t));
                    }
                    assert(b.contains(t));
                    let m = choose|m: int| 0 <= m < b.len() && b[m] == t;
                    assert(y[m - 1] == t);
                }
                if y.contains(t) {
                    let k = choose|k: int| 0 <= k < y.len() && y[k] == t;
                    assert(b[k + 1] == t);
                    assert(before(b[0], b[k + 1]));
                    lemma_irreflexive(t);
                    assert(b.to_set().contains(t)) by {
                        assert(b.contains(t));
                    }
                    assert(a.contains(t));
                    let m = choose|m: int| 0 <= m < a.len() && a[m] == t;
                    assert(x[m - 1] == t);
                }
            }
        }
        ascending_lists_are_unique(x, y);
        assert(a =~= seq![a[0]] + x);
        assert(b =~= seq![b[0]] + y);
    }
}

// ---------------------------------------------------------------------------
// Laws
// ---------------------------------------------------------------------------

/// Texts are ordered by the first character in which they differ, and a text
/// comes before every longer text that begins with it.
pub proof fn the_first_difference_decides(
    common: Seq<char>,
    x: char,
    a: Seq<char>,
    y: char,
    b: Seq<char>,
)
    requires
        x as u32 != y as u32,
    ensures
        before(common + seq![x] + a, common + seq![y] + b) <==> (x as u32) < (y as u32),
        before(common, common + seq![y] + b),
    decreases common.len(),
{
    let p = common + seq![x] + a;
    let q = common + seq![y] + b;
    if common.len() == 0 {
        assert(p[0] == x);
        assert(q[0] == y);
    } else {
        assert(p[0] == common[0]);
        assert(q[0] == common[0]);
        assert(p.skip(1) =~= common.skip(1) + seq![x] + a);
        assert(q.skip(1) =~= common.skip(1) + seq![y] + b);
        the_first_difference_decides(common.skip(1), x, a, y, b);
    }
}

} // verus!
