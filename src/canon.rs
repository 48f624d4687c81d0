//! Canonical textual forms: their order and their comparison.
use vstd::prelude::*;

verus! {

/// Strict lexicographic order on canonical forms, character by character
/// (the order of `str` in Rust, since UTF-8 keeps code point order).
pub open spec fn canon_lt(a: Seq<char>, b: Seq<char>) -> bool
    decreases a.len(),
{
    if a.len() == 0 {
        b.len() > 0
    } else if b.len() == 0 {
        false
    } else if a[0] != b[0] {
        a[0] < b[0]
    } else {
        canon_lt(a.drop_first(), b.drop_first())
    }
}

pub proof fn lemma_canon_lt_irreflexive(a: Seq<char>)
    ensures
        !canon_lt(a, a),
    decreases a.len(),
{
    if a.len() > 0 {
        lemma_canon_lt_irreflexive(a.drop_first());
    }
}

pub proof fn lemma_canon_lt_total(a: Seq<char>, b: Seq<char>)
    ensures
        a != b ==> canon_lt(a, b) || canon_lt(b, a),
        !(canon_lt(a, b) && canon_lt(b, a)),
    decreases a.len(),
{
    if a.len() > 0 && b.len() > 0 {
        if a[0] == b[0] {
            lemma_canon_lt_total(a.drop_first(), b.drop_first());
            if a.drop_first() == b.drop_first() {
                assert(a =~= seq![a[0]] + a.drop_first());
                assert(b =~= seq![b[0]] + b.drop_first());
            }
        }
    } else if a.len() == 0 && b.len() == 0 {
        assert(a =~= b);
    }
}

pub proof fn lemma_canon_lt_transitive(a: Seq<char>, b: Seq<char>, c: Seq<char>)
    requires
        canon_lt(a, b),
        canon_lt(b, c),
    ensures
        canon_lt(a, c),
    decreases a.len(),
{
    if a.len() > 0 && b.len() > 0 && c.len() > 0 {
        if a[0] == b[0] && b[0] == c[0] {
            lemma_canon_lt_transitive(a.drop_first(), b.drop_first(), c.drop_first());
        }
    }
}

proof fn lemma_canon_lt_step(a: Seq<char>, b: Seq<char>, i: int)
    requires
        0 <= i < a.len(),
        i < b.len(),
        a[i] == b[i],
    ensures
        canon_lt(a.skip(i), b.skip(i)) == canon_lt(a.skip(i + 1), b.skip(i + 1)),
{
    assert(a.skip(i).drop_first() =~= a.skip(i + 1));
    assert(b.skip(i).drop_first() =~= b.skip(i + 1));
}

/// Three-way comparison of two canonical forms: negative, zero or positive
/// as `a` sorts before, equal to or after `b`.
pub fn compare_canon(a: &str, b: &str) -> (r: i8)
    ensures
        r == 0 <==> a@ == b@,
        r < 0 <==> canon_lt(a@, b@),
        r > 0 <==> canon_lt(b@, a@),
{
    proof {
        lemma_canon_lt_total(a@, b@);
        lemma_canon_lt_irreflexive(a@);
        assert(a@.skip(0) =~= a@);
        assert(b@.skip(0) =~= b@);
    }
    let la = a.unicode_len();
    let lb = b.unicode_len();
    let mut i: usize = 0;
    while i < la && i < lb
        invariant
            la == a@.len(),
            lb == b@.len(),
            i <= la,
            i <= lb,
            a@.subrange(0, i as int) == b@.subrange(0, i as int),
            canon_lt(a@, b@) == canon_lt(a@.skip(i as int), b@.skip(i as int)),
            canon_lt(b@, a@) == canon_lt(b@.skip(i as int), a@.skip(i as int)),
        decreases la - i,
    {
        let ca = a.get_char(i);
        let cb = b.get_char(i);
        if ca != cb {
            proof {
                assert(a@.skip(i as int)[0] == ca);
                assert(b@.skip(i as int)[0] == cb);
                assert(a@ != b@);
            }
            if ca < cb {
                return -1;
            } else {
                return 1;
            }
        }
        proof {
            lemma_canon_lt_step(a@, b@, i as int);
            lemma_canon_lt_step(b@, a@, i as int);
            assert(a@.subrange(0, i + 1) =~= a@.subrange(0, i as int).push(ca));
            assert(b@.subrange(0, i + 1) =~= b@.subrange(0, i as int).push(cb));
        }
        i = i + 1;
    }
    if la == lb {
        proof {
            assert(a@ =~= a@.subrange(0, i as int));
            assert(b@ =~= b@.subrange(0, i as int));
        }
        0
    } else if la < lb {
        proof {
            assert(a@.skip(i as int).len() == 0);
        }
        -1
    } else {
        proof {
            assert(b@.skip(i as int).len() == 0);
        }
        1
    }
}

} // verus!
