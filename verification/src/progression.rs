use vstd::prelude::*;

verus! {

/// A step of the work, weighed by [`action_value`].
#[derive(Clone, Copy, PartialEq, Eq, Structural)]
pub enum Action {
    Read,
    Join,
    Compare,
}

/// The weight of a step: a read counts 5, a join 1, a comparison 2.
pub open spec fn action_value(a: Action) -> nat {
    match a {
        Action::Read => 5,
        Action::Join => 1,
        Action::Compare => 2,
    }
}

/// The weight of a step.
pub fn value(a: Action) -> (r: usize)
    ensures
        r == action_value(a),
{
    match a {
        Action::Read => 5,
        Action::Join => 1,
        Action::Compare => 2,
    }
}

/// The weight of all the work for `nb_src` pairs of folders: each pair is
/// read twice, joined twice and compared twice.
pub open spec fn total_work(nb_src: nat) -> nat {
    nb_src * (2 * (action_value(Action::Read) + action_value(Action::Join) + action_value(
        Action::Compare,
    )))
}

/// The progress shown for `actual` done out of `total`, in percent
/// (rounded down).
pub open spec fn percent(actual: nat, total: nat) -> nat {
    (actual * 100 / total) as nat
}

/// Progress of the work, in weight done out of the total.
pub struct Progression {
    pub total: usize,
    pub actual: usize,
}

impl Progression {
    /// Nothing done yet of the work for `nb_src` pairs of folders.
    pub fn new(nb_src: usize) -> (r: Progression)
        requires
            total_work(nb_src as nat) <= usize::MAX,
        ensures
            r.total == total_work(nb_src as nat),
            r.actual == 0,
    {
        Progression {
            total: nb_src * (2 * (value(Action::Read) + value(Action::Join) + value(Action::Compare))),
            actual: 0,
        }
    }

    /// Counts a step done and returns the progress to show.
    pub fn run(&mut self, a: Action) -> (r: usize)
        requires
            old(self).total > 0,
            (old(self).actual + action_value(a)) * 100 <= usize::MAX,
        ensures
            final(self).actual == old(self).actual + action_value(a),
            final(self).total == old(self).total,
            r == percent(final(self).actual as nat, final(self).total as nat),
    {
        self.actual = self.actual + value(a);
        self.show()
    }

    /// The progress to show, in percent.
    pub fn show(&self) -> (r: usize)
        requires
            self.total > 0,
            self.actual * 100 <= usize::MAX,
        ensures
            r == percent(self.actual as nat, self.total as nat),
    {
        (self.actual * 100) / self.total
    }
}

/// The progress shown never goes back as steps are done, and stays at
/// most 100 while the weight done does not pass the total.
pub proof fn lemma_percent(a: nat, b: nat, total: nat)
    requires
        total > 0,
        a <= b,
    ensures
        percent(a, total) <= percent(b, total),
        b <= total ==> percent(b, total) <= 100,
        b == total ==> percent(b, total) == 100,
{
    assert(a * 100 <= b * 100) by (nonlinear_arith)
        requires
            a <= b,
    ;
    vstd::arithmetic::div_mod::lemma_div_is_ordered((a * 100) as int, (b * 100) as int, total as int);
    if b <= total {
        assert(b * 100 <= total * 100) by (nonlinear_arith)
            requires
                b <= total,
        ;
        vstd::arithmetic::div_mod::lemma_div_is_ordered((b * 100) as int, (total * 100) as int, total as int);
        assert((total * 100) / total == 100) by (nonlinear_arith)
            requires
                total > 0,
        ;
    }
}

/// The weight of a sequence of steps.
pub open spec fn work_of(acts: Seq<Action>) -> nat
    decreases acts.len(),
{
    if acts.len() == 0 {
        0
    } else {
        work_of(acts.drop_last()) + action_value(acts.last())
    }
}

/// How many times `a` occurs among the steps.
pub open spec fn count_of(acts: Seq<Action>, a: Action) -> nat
    decreases acts.len(),
{
    if acts.len() == 0 {
        0
    } else {
        count_of(acts.drop_last(), a) + if acts.last() == a {
            1nat
        } else {
            0nat
        }
    }
}

proof fn lemma_work_counts(acts: Seq<Action>)
    ensures
        work_of(acts) == 5 * count_of(acts, Action::Read) + count_of(acts, Action::Join) + 2 * count_of(
            acts,
            Action::Compare,
        ),
    decreases acts.len(),
{
    if acts.len() > 0 {
        lemma_work_counts(acts.drop_last());
    }
}

proof fn lemma_work_grows(acts: Seq<Action>, i: int, j: int)
    requires
        0 <= i <= j <= acts.len(),
    ensures
        work_of(acts.take(i)) <= work_of(acts.take(j)),
    decreases j - i,
{
    if i < j {
        lemma_work_grows(acts, i, j - 1);
        assert(acts.take(j).drop_last() =~= acts.take(j - 1));
    }
}

proof fn lemma_state_at(states: Seq<Progression>, acts: Seq<Action>, i: int)
    requires
        states.len() == acts.len() + 1,
        states[0].actual == 0,
        forall|k: int|
            0 <= k < acts.len() ==> #[trigger] states[k + 1].actual == states[k].actual + action_value(acts[k]),
        0 <= i <= acts.len(),
    ensures
        states[i].actual == work_of(acts.take(i)),
    decreases i,
{
    if i > 0 {
        lemma_state_at(states, acts, i - 1);
        let k = i - 1;
        assert(states[k + 1].actual == states[k].actual + action_value(acts[k]));
        assert(acts.take(i).drop_last() =~= acts.take(k));
        assert(acts.take(i).last() == acts[k]);
    } else {
        assert(acts.take(0).len() == 0);
    }
}

/// A whole run for `n` pairs of folders: starting from
/// [`Progression::new`], with one [`Progression::run`] per step and each
/// pair read, joined and compared twice in any order, the weight done
/// after each step is that of the steps so far, the percentages shown
/// never go back and stay at most 100, and the last one is 100.
/// (`states` holds the progression before the first step and after each
/// one, as the functions' `ensures` give it.)
pub proof fn lemma_full_run(states: Seq<Progression>, acts: Seq<Action>, n: nat)
    requires
        n >= 1,
        count_of(acts, Action::Read) == 2 * n,
        count_of(acts, Action::Join) == 2 * n,
        count_of(acts, Action::Compare) == 2 * n,
        states.len() == acts.len() + 1,
        states[0].actual == 0,
        states[0].total == total_work(n),
        forall|k: int|
            0 <= k < acts.len() ==> #[trigger] states[k + 1].actual == states[k].actual + action_value(acts[k]),
        forall|k: int| 0 <= k < acts.len() ==> #[trigger] states[k + 1].total == states[k].total,
    ensures
        forall|i: int|
            0 <= i < states.len() ==> #[trigger] states[i].actual == work_of(acts.take(i)) && states[i].total
                == total_work(n),
        forall|i: int, j: int|
            0 <= i <= j < states.len() ==> percent(#[trigger] states[i].actual as nat, total_work(n)) <= percent(
                #[trigger] states[j].actual as nat,
                total_work(n),
            ) <= 100,
        percent(states[acts.len() as int].actual as nat, total_work(n)) == 100,
{
    lemma_work_counts(acts);
    assert(acts.take(acts.len() as int) =~= acts);
    assert(total_work(n) == n * 16);
    assert(n * 16 == 5 * (2 * n) + 2 * n + 2 * (2 * n)) by (nonlinear_arith);
    assert(work_of(acts) == total_work(n));
    assert forall|i: int| 0 <= i < states.len() implies states[i].total == total_work(n) by {
        lemma_total_at(states, acts, i);
    }
    assert forall|i: int| 0 <= i < states.len() implies #[trigger] states[i].actual == work_of(acts.take(i))
        && states[i].total == total_work(n) by {
        lemma_state_at(states, acts, i);
    }
    assert forall|i: int, j: int| 0 <= i <= j < states.len() implies percent(
        #[trigger] states[i].actual as nat,
        total_work(n),
    ) <= percent(#[trigger] states[j].actual as nat, total_work(n)) <= 100 by {
        lemma_state_at(states, acts, i);
        lemma_state_at(states, acts, j);
        lemma_work_grows(acts, i, j);
        lemma_work_grows(acts, j, acts.len() as int);
        lemma_percent(work_of(acts.take(i)), work_of(acts.take(j)), total_work(n));
    }
    lemma_state_at(states, acts, acts.len() as int);
    lemma_percent(total_work(n), total_work(n), total_work(n));
}

proof fn lemma_total_at(states: Seq<Progression>, acts: Seq<Action>, i: int)
    requires
        states.len() == acts.len() + 1,
        forall|k: int| 0 <= k < acts.len() ==> #[trigger] states[k + 1].total == states[k].total,
        0 <= i < states.len(),
    ensures
        states[i].total == states[0].total,
    decreases i,
{
    if i > 0 {
        lemma_total_at(states, acts, i - 1);
        let k = i - 1;
        assert(states[k + 1].total == states[k].total);
    }
}

} // verus!
