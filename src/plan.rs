//! The statements of one generated method, and how they run.
use vstd::prelude::*;

verus! {

/// One statement of a generated method.
#[derive(PartialEq, Eq, Structural, Clone, Copy, Debug)]
pub enum Step {
    /// Run the pre-hook of the middleware at this registry position, keep
    /// its context, and return its error at once if it fails.
    Before(usize),
    /// Build the context record and call the real method.
    Invoke,
    /// Run the post-hook of the middleware at this registry position with
    /// its context and the call's result.
    After(usize),
}

/// How a generated call ends.
#[derive(PartialEq, Eq, Structural, Clone, Copy, Debug)]
pub enum Outcome {
    /// The real method ran and its result, converted, is returned.
    Completed,
    /// The pre-hook of the middleware at this registry position failed; its
    /// error, converted, is returned.
    Rejected(usize),
}

/// The pre-hook statements for positions `gi`, in order.
pub open spec fn befores(gi: Seq<usize>) -> Seq<Step> {
    gi.map_values(|i: usize| Step::Before(i))
}

/// The post-hook statements for positions `gi`, in order.
pub open spec fn afters(gi: Seq<usize>) -> Seq<Step> {
    gi.map_values(|i: usize| Step::After(i))
}

/// The statements of a method whose middlewares sit at registry positions
/// `gi`, in declared order: every pre-hook, the call, every post-hook.
pub open spec fn steps_of(gi: Seq<usize>) -> Seq<Step> {
    befores(gi) + seq![Step::Invoke] + afters(gi)
}

/// Runs `steps` in order; `pre_ok[j]` says whether the `j`-th pre-hook that
/// runs succeeds. Gives the statements that ran and how the call ended: a
/// failing pre-hook ends the call on the spot.
pub open spec fn run_steps(steps: Seq<Step>, pre_ok: Seq<bool>) -> (Seq<Step>, Outcome)
    decreases steps.len(),
{
    if steps.len() == 0 {
        (seq![], Outcome::Completed)
    } else {
        match steps[0] {
            Step::Before(i) => {
                if pre_ok.len() > 0 && !pre_ok[0] {
                    (seq![steps[0]], Outcome::Rejected(i))
                } else {
                    let rest = run_steps(steps.drop_first(), pre_ok.drop_first());
                    (seq![steps[0]] + rest.0, rest.1)
                }
            },
            _ => {
                let rest = run_steps(steps.drop_first(), pre_ok);
                (seq![steps[0]] + rest.0, rest.1)
            },
        }
    }
}

/// The statements of a method, in the order they are emitted.
pub fn call_steps(gi: &Vec<usize>) -> (r: Vec<Step>)
    ensures
        r@ == steps_of(gi@),
{
    let mut r: Vec<Step> = Vec::new();
    let mut k: usize = 0;
    while k < gi.len()
        invariant
            k <= gi.len(),
            r@ == befores(gi@.take(k as int)),
        decreases gi.len() - k,
    {
        r.push(Step::Before(gi[k]));
        proof {
            assert(befores(gi@.take(k + 1)) =~= befores(gi@.take(k as int)).push(Step::Before(gi@[k as int])));
        }
        k = k + 1;
    }
    r.push(Step::Invoke);
    let mut k: usize = 0;
    proof {
        assert(gi@.take(gi.len() as int) =~= gi@);
    }
    while k < gi.len()
        invariant
            k <= gi.len(),
            r@ == befores(gi@) + seq![Step::Invoke] + afters(gi@.take(k as int)),
        decreases gi.len() - k,
    {
        r.push(Step::After(gi[k]));
        proof {
            assert(afters(gi@.take(k + 1)) =~= afters(gi@.take(k as int)).push(Step::After(gi@[k as int])));
            assert(befores(gi@) + seq![Step::Invoke] + afters(gi@.take(k + 1)) =~= (befores(gi@) + seq![
                Step::Invoke] + afters(gi@.take(k as int))).push(Step::After(gi@[k as int])));
        }
        k = k + 1;
    }
    proof {
        assert(gi@.take(gi.len() as int) =~= gi@);
    }
    r
}

proof fn lemma_run_no_befores(s: Seq<Step>, pre_ok: Seq<bool>)
    requires
        forall|j: int| 0 <= j < s.len() ==> !(#[trigger] s[j] is Before),
    ensures
        run_steps(s, pre_ok) == (s, Outcome::Completed),
    decreases s.len(),
{
    if s.len() > 0 {
        assert(!(s[0] is Before));
        assert forall|j: int| 0 <= j < s.drop_first().len() implies !(#[trigger] s.drop_first()[j] is Before) by {
            assert(s.drop_first()[j] == s[j + 1]);
        }
        lemma_run_no_befores(s.drop_first(), pre_ok);
        assert(s =~= seq![s[0]] + s.drop_first());
    }
}

proof fn lemma_run_befores_ok(gi: Seq<usize>, rest: Seq<Step>, pre_ok: Seq<bool>)
    requires
        pre_ok.len() >= gi.len(),
        forall|j: int| 0 <= j < gi.len() ==> #[trigger] pre_ok[j],
    ensures
        run_steps(befores(gi) + rest, pre_ok) == (befores(gi) + run_steps(rest, pre_ok.skip(gi.len() as int)).0,
            run_steps(rest, pre_ok.skip(gi.len() as int)).1),
    decreases gi.len(),
{
    if gi.len() == 0 {
        assert(befores(gi) + rest =~= rest);
        assert(pre_ok.skip(0) =~= pre_ok);
        assert(befores(gi) + run_steps(rest, pre_ok).0 =~= run_steps(rest, pre_ok).0);
    } else {
        let s = befores(gi) + rest;
        assert(s[0] == Step::Before(gi[0]));
        assert(pre_ok[0]);
        assert(s.drop_first() =~= befores(gi.drop_first()) + rest);
        assert forall|j: int| 0 <= j < gi.drop_first().len() implies #[trigger] pre_ok.drop_first()[j] by {
            assert(pre_ok[j + 1]);
        }
        lemma_run_befores_ok(gi.drop_first(), rest, pre_ok.drop_first());
        assert(pre_ok.drop_first().skip(gi.len() - 1) =~= pre_ok.skip(gi.len() as int));
        assert(befores(gi) =~= seq![Step::Before(gi[0])] + befores(gi.drop_first()));
    }
}

proof fn lemma_run_befores_reject(gi: Seq<usize>, rest: Seq<Step>, pre_ok: Seq<bool>, k: int)
    requires
        0 <= k < gi.len(),
        pre_ok.len() > k,
        forall|j: int| 0 <= j < k ==> #[trigger] pre_ok[j],
        !pre_ok[k],
    ensures
        run_steps(befores(gi) + rest, pre_ok) == (befores(gi.take(k + 1)), Outcome::Rejected(gi[k])),
    decreases k,
{
    let s = befores(gi) + rest;
    assert(s[0] == Step::Before(gi[0]));
    if k == 0 {
        assert(befores(gi.take(1)) =~= seq![Step::Before(gi[0])]);
    } else {
        assert(s.drop_first() =~= befores(gi.drop_first()) + rest);
        assert forall|j: int| 0 <= j < k - 1 implies #[trigger] pre_ok.drop_first()[j] by {
            assert(pre_ok[j + 1]);
        }
        lemma_run_befores_reject(gi.drop_first(), rest, pre_ok.drop_first(), k - 1);
        assert(befores(gi.take(k + 1)) =~= seq![Step::Before(gi[0])] + befores(gi.drop_first().take(k)));
    }
}

/// When every pre-hook succeeds, a generated call runs each pre-hook in
/// declared order, then the real method, then each post-hook in declared
/// order, and returns the real method's result.
pub proof fn law_hooks_run_in_declared_order(gi: Seq<usize>, pre_ok: Seq<bool>)
    requires
        pre_ok.len() == gi.len(),
        forall|j: int| 0 <= j < gi.len() ==> #[trigger] pre_ok[j],
    ensures
        run_steps(steps_of(gi), pre_ok) == (befores(gi) + seq![Step::Invoke] + afters(gi), Outcome::Completed),
{
    let rest = seq![Step::Invoke] + afters(gi);
    assert(steps_of(gi) =~= befores(gi) + rest);
    lemma_run_befores_ok(gi, rest, pre_ok);
    assert forall|j: int| 0 <= j < rest.len() implies !(#[trigger] rest[j] is Before) by {
        if j > 0 {
            assert(rest[j] == Step::After(gi[j - 1]));
        }
    }
    lemma_run_no_befores(rest, pre_ok.skip(gi.len() as int));
    assert(befores(gi) + rest =~= befores(gi) + seq![Step::Invoke] + afters(gi));
}

/// When the `k`-th pre-hook is the first to fail, the call stops right
/// there: the real method never runs, no post-hook runs (not even those of
/// middlewares whose pre-hook already succeeded), and the call returns that
/// middleware's error.
pub proof fn law_failed_pre_hook_stops_call(gi: Seq<usize>, pre_ok: Seq<bool>, k: int)
    requires
        pre_ok.len() == gi.len(),
        0 <= k < gi.len(),
        forall|j: int| 0 <= j < k ==> #[trigger] pre_ok[j],
        !pre_ok[k],
    ensures
        run_steps(steps_of(gi), pre_ok) == (befores(gi.take(k + 1)), Outcome::Rejected(gi[k])),
        !run_steps(steps_of(gi), pre_ok).0.contains(Step::Invoke),
        forall|i: usize| !run_steps(steps_of(gi), pre_ok).0.contains(Step::After(i)),
{
    let rest = seq![Step::Invoke] + afters(gi);
    assert(steps_of(gi) =~= befores(gi) + rest);
    lemma_run_befores_reject(gi, rest, pre_ok, k);
    let t = befores(gi.take(k + 1));
    assert forall|j: int| 0 <= j < t.len() implies #[trigger] t[j] is Before by {}
}

/// A method with no middlewares runs the real method alone.
pub proof fn law_no_middleware_direct_call(pre_ok: Seq<bool>)
    ensures
        steps_of(Seq::<usize>::empty()) == seq![Step::Invoke],
        run_steps(steps_of(Seq::<usize>::empty()), pre_ok) == (seq![Step::Invoke], Outcome::Completed),
{
    assert(steps_of(Seq::<usize>::empty()) =~= seq![Step::Invoke]);
    lemma_run_no_befores(seq![Step::Invoke], pre_ok);
}

} // verus!
