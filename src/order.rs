//! Lexicographic order on paths, and the sorted, duplicate-free path lists
//! that a digest is taken over.
use vstd::prelude::*;

verus! {

/// Strict lexicographic order on character sequences, by code point.
pub open spec fn lex_lt(a: Seq<char>, b: Seq<char>) -> bool
    decreases a.len(),
{
    if a.len() == 0 {
        b.len() > 0
    } else if b.len() == 0 {
        false
    } else if a[0] != b[0] {
        (a[0] as int) < (b[0] as int)
    } else {
        lex_lt(a.drop_first(), b.drop_first())
    }
}

pub proof fn lemma_lex_irreflexive(a: Seq<char>)
    ensures
        !lex_lt(a, a),
    decreases a.len(),
{
    if a.len() > 0 {
        lemma_lex_irreflexive(a.drop_first());
    }
}

pub proof fn lemma_lex_transitive(a: Seq<char>, b: Seq<char>, c: Seq<char>)
    requires
        lex_lt(a, b),
        lex_lt(b, c),
    ensures
        lex_lt(a, c),
    decreases a.len(),
{
    if a.len() > 0 && b.len() > 0 && c.len() > 0 {
        if a[0] == b[0] && b[0] == c[0] {
            lemma_lex_transitive(a.drop_first(), b.drop_first(), c.drop_first());
        }
    }
}

pub proof fn lemma_lex_total(a: Seq<char>, b: Seq<char>)
    requires
        a != b,
    ensures
        lex_lt(a, b) || lex_lt(b, a),
    decreases a.len(),
{
    if a.len() > 0 && b.len() > 0 && a[0] == b[0] {
        if a.drop_first() == b.drop_first() {
            assert(a =~= seq![a[0]] + a.drop_first());
            assert(b =~= seq![b[0]] + b.drop_first());
        }
        lemma_lex_total(a.drop_first(), b.drop_first());
    } else if a.len() > 0 && b.len() > 0 {
        assert((a[0] as int) != (b[0] as int));
    } else if a.len() == 0 && b.len() == 0 {
        assert(a =~= b);
    }
}

/// Compares two strings by `lex_lt`.
pub fn str_lt(a: &str, b: &str) -> (r: bool)
    ensures
        r == lex_lt(a@, b@),
{
    let la = a.unicode_len();
    let lb = b.unicode_len();
    let mut i: usize = 0;
    assert(a@.skip(0) =~= a@);
    assert(b@.skip(0) =~= b@);
    while i < la && i < lb
        invariant
            la == a@.len(),
            lb == b@.len(),
            i <= la,
            i <= lb,
            lex_lt(a@, b@) == lex_lt(a@.skip(i as int), b@.skip(i as int)),
        decreases la - i,
    {
        let ca = a.get_char(i);
        let cb = b.get_char(i);
        assert(a@.skip(i as int)[0] == ca);
        assert(b@.skip(i as int)[0] == cb);
        if ca != cb {
            return (ca as u32) < (cb as u32);
        }
        assert(a@.skip(i as int).drop_first() =~= a@.skip(i + 1));
        assert(b@.skip(i as int).drop_first() =~= b@.skip(i + 1));
        i = i + 1;
    }
    i == la && i < lb
}


/// Whether two strings hold the same characters.
pub fn str_eq(a: &str, b: &str) -> (r: bool)
    ensures
        r == (a@ == b@),
{
    proof {
        lemma_lex_irreflexive(a@);
        if a@ != b@ {
            lemma_lex_total(a@, b@);
        }
    }
    !str_lt(a, b) && !str_lt(b, a)
}

/// The character sequences of a list of strings.
pub open spec fn views(s: Seq<String>) -> Seq<Seq<char>> {
    s.map_values(|x: String| x@)
}

/// Every element is below every later one: sorted, with no repeats.
pub open spec fn strictly_sorted(s: Seq<Seq<char>>) -> bool {
    forall|i: int, j: int| 0 <= i < j < s.len() ==> lex_lt(s[i], s[j])
}

/// Some item of `v` was resolved, and to the path `k`.
pub open spec fn resolves_to(v: Seq<Option<String>>, k: Seq<char>) -> bool {
    exists|i: int| 0 <= i < v.len() && v[i] is Some && v[i]->Some_0@ == k
}

/// Two strictly sorted lists with the same elements are the same list.
pub proof fn lemma_strictly_sorted_unique(a: Seq<Seq<char>>, b: Seq<Seq<char>>)
    requires
        strictly_sorted(a),
        strictly_sorted(b),
        forall|k: Seq<char>| a.contains(k) <==> b.contains(k),
    ensures
        a == b,
    decreases a.len(),
{
    if a.len() == 0 {
        if b.len() > 0 {
            assert(b.contains(b[0]));
        }
        assert(a =~= b);
    } else if b.len() == 0 {
        assert(a.contains(a[0]));
    } else {
        assert(a.contains(a[0]));
        assert(b.contains(b[0]));
        let ka = choose|k: int| 0 <= k < b.len() && b[k] == a[0];
        let kb = choose|k: int| 0 <= k < a.len() && a[k] == b[0];
        if a[0] != b[0] {
            assert(ka > 0 && kb > 0);
            assert(lex_lt(b[0], a[0]));
            assert(lex_lt(a[0], b[0]));
            lemma_lex_transitive(a[0], b[0], a[0]);
            lemma_lex_irreflexive(a[0]);
        }
        let ta = a.drop_first();
        let tb = b.drop_first();
        assert forall|k: Seq<char>| ta.contains(k) <==> tb.contains(k) by {
            if ta.contains(k) {
                let i = choose|i: int| 0 <= i < ta.len() && ta[i] == k;
                assert(a[i + 1] == k);
                assert(lex_lt(a[0], k));
                lemma_lex_irreflexive(k);
                assert(b.contains(k));
                let j = choose|j: int| 0 <= j < b.len() && b[j] == k;
                assert(j != 0);
                assert(tb[j - 1] == k);
            }
            if tb.contains(k) {
                let i = choose|i: int| 0 <= i < tb.len() && tb[i] == k;
                assert(b[i + 1] == k);
                assert(lex_lt(b[0], k));
                lemma_lex_irreflexive(k);
                assert(a.contains(k));
                let j = choose|j: int| 0 <= j < a.len() && a[j] == k;
                assert(j != 0);
                assert(ta[j - 1] == k);
            }
        }
        lemma_strictly_sorted_unique(ta, tb);
        assert(a =~= seq![a[0]] + ta);
        assert(b =~= seq![b[0]] + tb);
    }
}

/// Inserts `x` at its place in a strictly sorted list, unless it is there
/// already.
pub fn insert_unique(v: &mut Vec<String>, x: String)
    requires
        strictly_sorted(views(old(v)@)),
    ensures
        strictly_sorted(views(final(v)@)),
        forall|k: Seq<char>|
            views(final(v)@).contains(k) <==> (views(old(v)@).contains(k) || k == x@),
{
    let mut p: usize = 0;
    while p < v.len() && str_lt(v[p].as_str(), x.as_str())
        invariant
            p <= v.len(),
            forall|i: int| 0 <= i < p ==> lex_lt(#[trigger] v@[i]@, x@),
        decreases v.len() - p,
    {
        p = p + 1;
    }
    if p < v.len() && v[p] == x {
        proof {
            assert(views(v@)[p as int] == x@);
        }
        return;
    }
    let ghost before = views(v@);
    v.insert(p, x);
    proof {
        let after = views(v@);
        assert(after =~= before.insert(p as int, x@));
        if p < before.len() {
            assert(!lex_lt(before[p as int], x@));
            lemma_lex_total(before[p as int], x@);
            assert(lex_lt(x@, before[p as int]));
        }
        assert forall|i: int, j: int| 0 <= i < j < after.len() implies lex_lt(after[i], after[j]) by {
            if i < p && j < p {
                assert(after[i] == before[i] && after[j] == before[j]);
            } else if i < p && j == p {
                assert(after[i] == before[i]);
                assert(v@[i]@ == before[i]);
            } else if i < p {
                assert(after[i] == before[i] && after[j] == before[j - 1]);
                assert(v@[i]@ == before[i]);
                if j - 1 > p {
                    lemma_lex_transitive(x@, before[p as int], before[j - 1]);
                }
                lemma_lex_transitive(before[i], x@, before[j - 1]);
            } else if i == p {
                assert(after[j] == before[j - 1]);
                if j - 1 > p {
                    lemma_lex_transitive(x@, before[p as int], before[j - 1]);
                }
            } else {
                assert(after[i] == before[i - 1] && after[j] == before[j - 1]);
            }
        }
        assert forall|k: Seq<char>| after.contains(k) <==> (before.contains(k) || k == x@) by {
            if after.contains(k) {
                let i = choose|i: int| 0 <= i < after.len() && after[i] == k;
                if i < p {
                    assert(before[i] == k);
                } else if i > p {
                    assert(before[i - 1] == k);
                }
            }
            if before.contains(k) {
                let i = choose|i: int| 0 <= i < before.len() && before[i] == k;
                if i < p {
                    assert(after[i] == k);
                } else {
                    assert(after[i + 1] == k);
                }
            }
            if k == x@ {
                assert(after[p as int] == k);
            }
        }
    }
}

/// Adds every resolved path of `items` to a strictly sorted list.
fn insert_resolved(start_list: Vec<String>, items: &Vec<Option<String>>) -> (r: Vec<String>)
    requires
        strictly_sorted(views(start_list@)),
    ensures
        strictly_sorted(views(r@)),
        forall|k: Seq<char>|
            #![trigger views(r@).contains(k)]
            views(r@).contains(k) <==> (views(start_list@).contains(k) || resolves_to(
                items@,
                k,
            )),
{
    let mut v = start_list;
    let ghost start = views(v@);
    let mut i: usize = 0;
    while i < items.len()
        invariant
            i <= items.len(),
            strictly_sorted(views(v@)),
            forall|k: Seq<char>|
                views(v@).contains(k) <==> (start.contains(k) || resolves_to(
                    items@.subrange(0, i as int),
                    k,
                )),
        decreases items.len() - i,
    {
        let ghost prev = views(v@);
        match &items[i] {
            Some(p) => {
                insert_unique(&mut v, p.clone());
                assert(forall|k: Seq<char>|
                    views(v@).contains(k) <==> (prev.contains(k) || k == p@));
            },
            None => {
                assert(views(v@) == prev);
            },
        }
        proof {
            let done = items@.subrange(0, i + 1);
            let was = items@.subrange(0, i as int);
            assert forall|k: Seq<char>|
                views(v@).contains(k) <==> (start.contains(k) || resolves_to(done, k)) by {
                assert(prev.contains(k) <==> (start.contains(k) || resolves_to(was, k)));
                if resolves_to(done, k) {
                    let j = choose|j: int|
                        0 <= j < done.len() && done[j] is Some && done[j]->Some_0@ == k;
                    if j < i {
                        assert(was[j] == done[j]);
                    }
                }
                if resolves_to(was, k) {
                    let j = choose|j: int|
                        0 <= j < was.len() && was[j] is Some && was[j]->Some_0@ == k;
                    assert(done[j] == was[j]);
                }
                if items@[i as int] is Some && k == items@[i as int]->Some_0@ {
                    assert(done[i as int] == items@[i as int]);
                }
            }
        }
        i = i + 1;
    }
    proof {
        assert(items@.subrange(0, items@.len() as int) =~= items@);
        assert(start == views(start_list@));
        assert forall|k: Seq<char>|
            #![trigger views(v@).contains(k)]
            views(v@).contains(k) <==> (views(start_list@).contains(k) || resolves_to(items@, k)) by {
            assert(views(v@).contains(k) <==> (start.contains(k) || resolves_to(
                items@.subrange(0, i as int),
                k,
            )));
        }
    }
    v
}

/// The paths that some item of `a` or of `b` resolved to.
pub open spec fn resolved_set(a: Seq<Option<String>>, b: Seq<Option<String>>) -> Set<Seq<char>> {
    Set::new(|k: Seq<char>| resolves_to(a, k) || resolves_to(b, k))
}

/// The elements of `keys`, sorted, each once.
pub open spec fn sorted_of(keys: Set<Seq<char>>) -> Seq<Seq<char>> {
    choose|s: Seq<Seq<char>>| strictly_sorted(s) && s.to_set() == keys
}

/// The resolved paths of both lists, sorted, each once.
pub open spec fn sorted_union(a: Seq<Option<String>>, b: Seq<Option<String>>) -> Seq<Seq<char>> {
    sorted_of(resolved_set(a, b))
}

/// The list of paths hashed for an entry depends only on which paths its
/// files resolve to: not on their order in the manifest, nor on repeats,
/// nor on which of the two lists names a path.
pub proof fn lemma_sorted_union_ignores_order(
    a1: Seq<Option<String>>,
    b1: Seq<Option<String>>,
    a2: Seq<Option<String>>,
    b2: Seq<Option<String>>,
)
    requires
        forall|k: Seq<char>|
            (resolves_to(a1, k) || resolves_to(b1, k)) <==> (resolves_to(a2, k) || resolves_to(
                b2,
                k,
            )),
    ensures
        sorted_union(a1, b1) == sorted_union(a2, b2),
{
    assert(resolved_set(a1, b1) =~= resolved_set(a2, b2));
}

/// Computes `sorted_union`.
pub fn sorted_paths(a: &Vec<Option<String>>, b: &Vec<Option<String>>) -> (r: Vec<String>)
    ensures
        views(r@) == sorted_union(a@, b@),
        strictly_sorted(views(r@)),
        forall|k: Seq<char>|
            views(r@).contains(k) <==> (resolves_to(a@, k) || resolves_to(b@, k)),
{
    let mut r: Vec<String> = Vec::new();
    proof {
        assert(views(r@) =~= Seq::<Seq<char>>::empty());
    }
    let r = insert_resolved(r, a);
    let ghost mid = views(r@);
    let r = insert_resolved(r, b);
    proof {
        assert forall|k: Seq<char>|
            views(r@).contains(k) <==> (resolves_to(a@, k) || resolves_to(b@, k)) by {
            assert(views(r@).contains(k) <==> (mid.contains(k) || resolves_to(b@, k)));
            assert(mid.contains(k) <==> (Seq::<Seq<char>>::empty().contains(k) || resolves_to(
                a@,
                k,
            )));
        }
        let keys = resolved_set(a@, b@);
        assert(views(r@).to_set() =~= keys);
        let u = sorted_union(a@, b@);
        assert(strictly_sorted(u) && u.to_set() == keys);
        assert forall|k: Seq<char>| views(r@).contains(k) <==> u.contains(k) by {
            assert(views(r@).to_set().contains(k) == views(r@).contains(k));
            assert(u.to_set().contains(k) == u.contains(k));
        }
        lemma_strictly_sorted_unique(views(r@), u);
    }
    r
}

} // verus!
