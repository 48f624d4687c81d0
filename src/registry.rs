//! The service-wide middleware registry and the mapping of each method's
//! middlewares onto it.
use vstd::prelude::*;
use crate::canon::{canon_lt, compare_canon, lemma_canon_lt_irreflexive, lemma_canon_lt_total, lemma_canon_lt_transitive};
use crate::rpc::{texts, Rpc, declared_lists};

verus! {

/// Each canonical form sorts strictly before the next one.
pub open spec fn strictly_sorted(r: Seq<Seq<char>>) -> bool {
    forall|i: int, j: int| 0 <= i < j < r.len() ==> #[trigger] canon_lt(r[i], r[j])
}

/// `x` is declared by some method of `lists`.
pub open spec fn declared_anywhere(lists: Seq<Seq<Seq<char>>>, x: Seq<char>) -> bool {
    exists|i: int, k: int| 0 <= i < lists.len() && 0 <= k < lists[i].len() && #[trigger] lists[i][k] == x
}

/// The set of all middlewares declared by the methods of `lists`.
pub open spec fn declared_set(lists: Seq<Seq<Seq<char>>>) -> Set<Seq<char>> {
    Set::new(|x: Seq<char>| declared_anywhere(lists, x))
}

/// `r` is the registry of the declared lists: every declared middleware once,
/// nothing else, in ascending canonical order.
pub open spec fn is_registry_of(r: Seq<Seq<char>>, lists: Seq<Seq<Seq<char>>>) -> bool {
    &&& strictly_sorted(r)
    &&& r.to_set() == declared_set(lists)
}

/// `gi` maps each entry of `declared` to its position in `r`.
pub open spec fn maps_onto(gi: Seq<usize>, declared: Seq<Seq<char>>, r: Seq<Seq<char>>) -> bool {
    &&& gi.len() == declared.len()
    &&& forall|k: int| 0 <= k < gi.len() ==> (#[trigger] gi[k] as int) < r.len() && r[gi[k] as int] == declared[k]
}

/// Inserts `x` into a strictly sorted registry unless it is there already.
fn insert_canon(reg: &mut Vec<String>, x: &String)
    requires
        strictly_sorted(texts(old(reg)@)),
    ensures
        strictly_sorted(texts(final(reg)@)),
        texts(final(reg)@).to_set() == texts(old(reg)@).to_set().insert(x@),
{
    let ghost s = texts(reg@);
    let mut j: usize = 0;
    let mut stop = false;
    while j < reg.len() && !stop
        invariant
            s == texts(reg@),
            strictly_sorted(s),
            j <= reg.len(),
            forall|k: int| 0 <= k < j ==> canon_lt(#[trigger] s[k], x@),
            stop ==> j < reg.len() && canon_lt(x@, s[j as int]),
        decreases 2 * (reg.len() - j) + (if stop { 0int } else { 1int }),
    {
        let c = compare_canon(reg[j].as_str(), x.as_str());
        if c == 0 {
            proof {
                assert(s[j as int] == x@);
                assert(s.to_set().insert(x@) =~= s.to_set());
            }
            return;
        } else if c > 0 {
            stop = true;
        } else {
            j = j + 1;
        }
    }
    proof {
        assert forall|k: int| j <= k < s.len() implies canon_lt(x@, #[trigger] s[k]) by {
            if k > j {
                lemma_canon_lt_transitive(x@, s[j as int], s[k]);
            }
        }
    }
    reg.insert(j, x.clone());
    proof {
        let t = texts(reg@);
        assert(t =~= s.insert(j as int, x@));
        assert forall|a: int, b: int| 0 <= a < b < t.len() implies #[trigger] canon_lt(t[a], t[b]) by {
            if a < j && b > j {
                lemma_canon_lt_transitive(s[a], x@, s[b - 1]);
            }
        }
        assert(t.to_set() =~= s.to_set().insert(x@)) by {
            assert forall|y: Seq<char>| t.to_set().contains(y) implies s.to_set().insert(x@).contains(y) by {
                let i = choose|i: int| 0 <= i < t.len() && t[i] == y;
                if i > j {
                    assert(s[i - 1] == y);
                } else if i < j {
                    assert(s[i] == y);
                }
            }
            assert forall|y: Seq<char>| s.to_set().insert(x@).contains(y) implies t.to_set().contains(y) by {
                if y == x@ {
                    assert(t[j as int] == y);
                } else {
                    let i = choose|i: int| 0 <= i < s.len() && s[i] == y;
                    if i < j {
                        assert(t[i] == y);
                    } else {
                        assert(t[i + 1] == y);
                    }
                }
            }
        }
    }
}

/// Collects every middleware declared by the methods into one list without
/// repetition, sorted ascending by canonical form.
pub fn build_registry(rpcs: &Vec<Rpc>) -> (r: Vec<String>)
    ensures
        is_registry_of(texts(r@), declared_lists(rpcs@)),
{
    let ghost lists = declared_lists(rpcs@);
    let mut reg: Vec<String> = Vec::new();
    let mut i: usize = 0;
    while i < rpcs.len()
        invariant
            lists == declared_lists(rpcs@),
            i <= rpcs.len(),
            strictly_sorted(texts(reg@)),
            forall|x: Seq<char>| #[trigger] texts(reg@).to_set().contains(x) <==>
                exists|a: int, k: int| 0 <= a < i && 0 <= k < lists[a].len() && #[trigger] lists[a][k] == x,
        decreases rpcs.len() - i,
    {
        let mds = &rpcs[i].middlewares;
        let mut k: usize = 0;
        while k < mds.len()
            invariant
                lists == declared_lists(rpcs@),
                i < rpcs.len(),
                mds == rpcs@[i as int].middlewares,
                k <= mds.len(),
                strictly_sorted(texts(reg@)),
                forall|x: Seq<char>| #[trigger] texts(reg@).to_set().contains(x) <==>
                    (exists|a: int, b: int| 0 <= a < i && 0 <= b < lists[a].len() && #[trigger] lists[a][b] == x)
                    || (exists|b: int| 0 <= b < k && #[trigger] lists[i as int][b] == x),
            decreases mds.len() - k,
        {
            let ghost before = texts(reg@).to_set();
            insert_canon(&mut reg, &mds[k]);
            proof {
                assert(lists[i as int][k as int] == mds@[k as int]@);
                assert forall|x: Seq<char>| #[trigger] texts(reg@).to_set().contains(x) <==>
                    (exists|a: int, b: int| 0 <= a < i && 0 <= b < lists[a].len() && #[trigger] lists[a][b] == x)
                    || (exists|b: int| 0 <= b < k + 1 && #[trigger] lists[i as int][b] == x) by {
                    if x == mds@[k as int]@ {
                        assert(lists[i as int][k as int] == x);
                    }
                    if exists|b: int| 0 <= b < k + 1 && #[trigger] lists[i as int][b] == x {
                        let b = choose|b: int| 0 <= b < k + 1 && #[trigger] lists[i as int][b] == x;
                        if b < k {
                            assert(before.contains(x));
                        }
                    }
                }
            }
            k = k + 1;
        }
        proof {
            assert forall|x: Seq<char>| #[trigger] texts(reg@).to_set().contains(x) <==>
                exists|a: int, b: int| 0 <= a < i + 1 && 0 <= b < lists[a].len() && #[trigger] lists[a][b] == x by {
                if exists|a: int, b: int| 0 <= a < i + 1 && 0 <= b < lists[a].len() && #[trigger] lists[a][b] == x {
                    let (a, b) = choose|a: int, b: int| 0 <= a < i + 1 && 0 <= b < lists[a].len() && #[trigger] lists[a][b] == x;
                    if a == i {
                        assert(0 <= b < k && lists[i as int][b] == x);
                    }
                }
            }
        }
        i = i + 1;
    }
    proof {
        assert(texts(reg@).to_set() =~= declared_set(lists));
    }
    reg
}

/// Position of `x` in the registry.
pub fn registry_index(reg: &Vec<String>, x: &String) -> (r: usize)
    requires
        texts(reg@).contains(x@),
    ensures
        r < reg.len(),
        reg@[r as int]@ == x@,
{
    let ghost t = texts(reg@);
    let mut j: usize = 0;
    while j < reg.len()
        invariant
            t == texts(reg@),
            t.contains(x@),
            j <= reg.len(),
            forall|k: int| 0 <= k < j ==> #[trigger] t[k] != x@,
        decreases reg.len() - j,
    {
        if compare_canon(reg[j].as_str(), x.as_str()) == 0 {
            return j;
        }
        j = j + 1;
    }
    proof {
        let k = choose|k: int| 0 <= k < t.len() && t[k] == x@;
        assert(t[k] != x@);
    }
    0
}

/// Maps each of a method's declared middlewares, in declared order, to its
/// position in the registry.
pub fn registry_indices(mds: &Vec<String>, reg: &Vec<String>) -> (gi: Vec<usize>)
    requires
        forall|k: int| 0 <= k < mds.len() ==> texts(reg@).contains(#[trigger] mds@[k]@),
    ensures
        maps_onto(gi@, texts(mds@), texts(reg@)),
{
    let mut gi: Vec<usize> = Vec::new();
    let mut k: usize = 0;
    while k < mds.len()
        invariant
            forall|k: int| 0 <= k < mds.len() ==> texts(reg@).contains(#[trigger] mds@[k]@),
            k <= mds.len(),
            gi.len() == k,
            forall|b: int| 0 <= b < k ==> (#[trigger] gi@[b] as int) < reg.len() && reg@[gi@[b] as int]@ == mds@[b]@,
        decreases mds.len() - k,
    {
        let p = registry_index(reg, &mds[k]);
        gi.push(p);
        k = k + 1;
    }
    gi
}

/// Fills in the registry positions of every method; everything else of
/// each method is kept.
pub fn resolve_indices(rpcs: Vec<Rpc>, reg: &Vec<String>) -> (r: Vec<Rpc>)
    requires
        is_registry_of(texts(reg@), declared_lists(rpcs@)),
    ensures
        r.len() == rpcs.len(),
        forall|i: int| 0 <= i < r.len() ==> (#[trigger] r@[i]).same_method(&rpcs@[i]),
        forall|i: int| 0 <= i < r.len() ==> maps_onto((#[trigger] r@[i]).global_indices@, r@[i].declared(), texts(reg@)),
{
    let ghost orig = rpcs@;
    let ghost lists = declared_lists(orig);
    let mut rest = rpcs;
    let mut out: Vec<Rpc> = Vec::new();
    while rest.len() > 0
        invariant
            lists == declared_lists(orig),
            is_registry_of(texts(reg@), lists),
            out.len() + rest.len() == orig.len(),
            rest@ == orig.skip(out.len() as int),
            forall|i: int| 0 <= i < out.len() ==> (#[trigger] out@[i]).same_method(&orig[i]),
            forall|i: int| 0 <= i < out.len() ==> maps_onto((#[trigger] out@[i]).global_indices@, out@[i].declared(), texts(reg@)),
        decreases rest.len(),
    {
        let mut m = rest.remove(0);
        let ghost n = out.len() as int;
        proof {
            assert(m == orig[n]);
            assert forall|k: int| 0 <= k < m.middlewares.len() implies texts(reg@).contains(#[trigger] m.middlewares@[k]@) by {
                assert(lists[n][k] == m.middlewares@[k]@);
                assert(declared_anywhere(lists, lists[n][k]));
                assert(declared_set(lists).contains(lists[n][k]));
            }
        }
        let gi = registry_indices(&m.middlewares, reg);
        m.global_indices = gi;
        out.push(m);
        proof {
            assert(rest@ =~= orig.skip(out.len() as int));
        }
    }
    out
}

/// Two strictly sorted lists that hold the same forms are the same list.
proof fn lemma_strictly_sorted_unique(x: Seq<Seq<char>>, y: Seq<Seq<char>>)
    requires
        strictly_sorted(x),
        strictly_sorted(y),
        x.to_set() == y.to_set(),
    ensures
        x == y,
    decreases x.len(),
{
    if x.len() == 0 {
        if y.len() > 0 {
            assert(y.to_set().contains(y[0]));
        }
        assert(x =~= y);
    } else if y.len() == 0 {
        assert(x.to_set().contains(x[0]));
    } else {
        assert(y.to_set().contains(x[0]));
        assert(x.to_set().contains(y[0]));
        let j = choose|j: int| 0 <= j < y.len() && y[j] == x[0];
        let i = choose|i: int| 0 <= i < x.len() && x[i] == y[0];
        if j > 0 {
            assert(canon_lt(y[0], y[j]));
            if i > 0 {
                assert(canon_lt(x[0], x[i]));
                lemma_canon_lt_transitive(y[0], x[0], y[0]);
            }
            lemma_canon_lt_irreflexive(y[0]);
        }
        assert(x[0] == y[0]);
        let x1 = x.drop_first();
        let y1 = y.drop_first();
        assert forall|a: Seq<char>| x1.to_set().contains(a) <==> y1.to_set().contains(a) by {
            if x1.to_set().contains(a) {
                let p = choose|p: int| 0 <= p < x1.len() && x1[p] == a;
                assert(canon_lt(x[0], x[p + 1]));
                lemma_canon_lt_irreflexive(a);
                assert(x.to_set().contains(a));
                let q = choose|q: int| 0 <= q < y.len() && y[q] == a;
                assert(q != 0);
                assert(y1[q - 1] == a);
            }
            if y1.to_set().contains(a) {
                let p = choose|p: int| 0 <= p < y1.len() && y1[p] == a;
                assert(canon_lt(y[0], y[p + 1]));
                lemma_canon_lt_irreflexive(a);
                assert(y.to_set().contains(a));
                let q = choose|q: int| 0 <= q < x.len() && x[q] == a;
                assert(q != 0);
                assert(x1[q - 1] == a);
            }
        }
        assert(x1.to_set() =~= y1.to_set());
        lemma_strictly_sorted_unique(x1, y1);
        assert(x =~= seq![x[0]] + x1);
        assert(y =~= seq![y[0]] + y1);
    }
}

/// A strictly sorted list holds no form twice.
proof fn lemma_strictly_sorted_no_duplicates(r: Seq<Seq<char>>)
    requires
        strictly_sorted(r),
    ensures
        r.no_duplicates(),
{
    assert forall|i: int, j: int| 0 <= i < r.len() && 0 <= j < r.len() && i != j implies r[i] != r[j] by {
        if i < j {
            assert(canon_lt(r[i], r[j]));
        } else {
            assert(canon_lt(r[j], r[i]));
        }
        lemma_canon_lt_irreflexive(r[i]);
    }
}

/// The registry of a service holds each distinct declared middleware exactly
/// once, sorted, and is fixed by the set of declared middlewares alone: two
/// services that declare the same middlewares, in whatever methods and
/// whatever order, get the same registry.
pub proof fn law_registry_determined(
    r1: Seq<Seq<char>>,
    lists1: Seq<Seq<Seq<char>>>,
    r2: Seq<Seq<char>>,
    lists2: Seq<Seq<Seq<char>>>,
)
    requires
        is_registry_of(r1, lists1),
        is_registry_of(r2, lists2),
        declared_set(lists1) == declared_set(lists2),
    ensures
        r1 == r2,
        r1.no_duplicates(),
        r1.len() == declared_set(lists1).len(),
{
    lemma_strictly_sorted_unique(r1, r2);
    lemma_strictly_sorted_no_duplicates(r1);
    r1.unique_seq_to_set();
}

/// A middleware declared on two methods (or twice on one) is mapped to the
/// same registry position each time.
pub proof fn law_same_middleware_same_index(
    r: Seq<Seq<char>>,
    d1: Seq<Seq<char>>,
    gi1: Seq<usize>,
    k1: int,
    d2: Seq<Seq<char>>,
    gi2: Seq<usize>,
    k2: int,
)
    requires
        strictly_sorted(r),
        maps_onto(gi1, d1, r),
        maps_onto(gi2, d2, r),
        0 <= k1 < d1.len(),
        0 <= k2 < d2.len(),
        d1[k1] == d2[k2],
    ensures
        gi1[k1] == gi2[k2],
{
    lemma_strictly_sorted_no_duplicates(r);
    assert(r[gi1[k1] as int] == r[gi2[k2] as int]);
}

/// Against one registry, a method's positions are fixed by its declared list,
/// and they change exactly when the declared order changes: reordering a
/// method's declaration reorders its hooks and nothing else.
pub proof fn law_indices_follow_declared_order(
    r: Seq<Seq<char>>,
    d1: Seq<Seq<char>>,
    gi1: Seq<usize>,
    d2: Seq<Seq<char>>,
    gi2: Seq<usize>,
)
    requires
        strictly_sorted(r),
        maps_onto(gi1, d1, r),
        maps_onto(gi2, d2, r),
    ensures
        gi1 == gi2 <==> d1 == d2,
{
    if d1 == d2 {
        assert forall|k: int| 0 <= k < gi1.len() implies gi1[k] == gi2[k] by {
            law_same_middleware_same_index(r, d1, gi1, k, d2, gi2, k);
        }
        assert(gi1 =~= gi2);
    }
    if gi1 == gi2 {
        assert forall|k: int| 0 <= k < d1.len() implies d1[k] == d2[k] by {
            assert(r[gi1[k] as int] == d1[k]);
            assert(r[gi2[k] as int] == d2[k]);
        }
        assert(d1 =~= d2);
    }
}

} // verus!
