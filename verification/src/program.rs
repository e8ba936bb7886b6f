//! Programs of effects: what to perform in which order, and what to undo when
//! an effect fails. The caller performs each effect and reports its outcome.

use crate::error::ManagerError;
use vstd::prelude::*;

verus! {

/// What a failed effect leads to.
#[derive(Debug, Clone, Copy, PartialEq, Eq, Structural)]
pub enum Policy {
    /// The program goes on.
    Ignore,
    /// The program ends with the error.
    Fail,
    /// The undo block of this number runs, then the program ends with the error.
    Undo(usize),
}

/// An effect and what its failure leads to.
#[derive(Debug)]
pub struct Step<E> {
    pub effect: E,
    pub policy: Policy,
}

/// Effects to perform in order, and the undo blocks that they refer to.
#[derive(Debug)]
pub struct Program<E> {
    pub main: Vec<Step<E>>,
    pub undos: Vec<Vec<Step<E>>>,
}

/// Every undo block that a step refers to is there.
pub open spec fn refers_below(steps: Seq<Policy>, n: nat) -> bool {
    forall|i: int| 0 <= i < steps.len() ==> match #[trigger] steps[i] {
        Policy::Undo(k) => k < n,
        _ => true,
    }
}

pub open spec fn policies<E>(steps: Seq<Step<E>>) -> Seq<Policy> {
    steps.map_values(|s: Step<E>| s.policy)
}

impl<E> Program<E> {
    /// The program refers only to undo blocks that it has.
    pub open spec fn wf(self) -> bool {
        refers_below(policies(self.main@), self.undos@.len())
    }
}

/// Where a program stands.
#[derive(Debug, Clone, Copy, PartialEq, Eq, Structural)]
pub enum Place {
    /// Before the effect of this number.
    Main(usize),
    /// Before the effect of the second number in the undo block of the first.
    Undo(usize, usize),
    /// Ended by an error.
    Stopped,
}

/// The mathematical value of a [`Place`].
pub enum At {
    Main(int),
    Undo(int, int),
    Stopped,
}

impl View for Place {
    type V = At;

    open spec fn view(&self) -> At {
        match self {
            Place::Main(i) => At::Main(*i as int),
            Place::Undo(k, i) => At::Undo(*k as int, *i as int),
            Place::Stopped => At::Stopped,
        }
    }
}

/// Where a program stands after an effect.
pub open spec fn next_at(at: At, policy: Policy, ok: bool) -> At {
    match at {
        At::Main(i) => if ok || policy == Policy::Ignore {
            At::Main(i + 1)
        } else {
            match policy {
                Policy::Undo(k) => At::Undo(k as int, 0),
                _ => At::Stopped,
            }
        },
        At::Undo(k, i) => if ok || policy == Policy::Ignore {
            At::Undo(k, i + 1)
        } else {
            At::Stopped
        },
        At::Stopped => At::Stopped,
    }
}

/// A program and how far it has come.
#[derive(Debug)]
pub struct Runner<E> {
    pub program: Program<E>,
    pub place: Place,
    pub error: Option<ManagerError>,
}

impl<E> Runner<E> {
    /// The place is inside the program.
    pub open spec fn wf(self) -> bool {
        &&& self.program.wf()
        &&& match self.place {
            Place::Main(i) => i <= self.program.main@.len() && self.error is None,
            Place::Undo(k, i) => k < self.program.undos@.len() && i
                <= self.program.undos@[k as int]@.len() && self.error is Some,
            Place::Stopped => self.error is Some,
        }
    }

    /// The step that the place is before.
    pub open spec fn step(self) -> Option<Step<E>> {
        match self.place {
            Place::Main(i) => if i < self.program.main@.len() {
                Some(self.program.main@[i as int])
            } else {
                None
            },
            Place::Undo(k, i) => if i < self.program.undos@[k as int]@.len() {
                Some(self.program.undos@[k as int]@[i as int])
            } else {
                None
            },
            Place::Stopped => None,
        }
    }

    /// A program that has performed nothing.
    pub fn new(program: Program<E>) -> (r: Runner<E>)
        requires
            program.wf(),
        ensures
            r.wf(),
            r.program == program,
            r.place == Place::Main(0),
            r.error is None,
    {
        Runner { program, place: Place::Main(0), error: None }
    }

    /// The effect to perform next; nothing at the end.
    pub fn current(&self) -> (r: Option<&E>)
        requires
            self.wf(),
        ensures
            match r {
                Some(e) => self.step() matches Some(s) && *e == s.effect,
                None => self.step() is None,
            },
    {
        match self.place {
            Place::Main(i) => if i < self.program.main.len() {
                Some(&self.program.main[i].effect)
            } else {
                None
            },
            Place::Undo(k, i) => if i < self.program.undos[k].len() {
                Some(&self.program.undos[k][i].effect)
            } else {
                None
            },
            Place::Stopped => None,
        }
    }

    /// Takes the outcome of the current effect. The error of the program is
    /// the first that is not ignored, unless undoing fails: then it is the
    /// error of the step that failed to undo.
    pub fn report(&mut self, outcome: Result<(), ManagerError>)
        requires
            old(self).wf(),
            old(self).step() is Some,
        ensures
            final(self).wf(),
            final(self).program == old(self).program,
            final(self).place@ == next_at(
                old(self).place@,
                old(self).step()->0.policy,
                outcome is Ok,
            ),
            final(self).error == (match outcome {
                Ok(_) => old(self).error,
                Err(e) => if old(self).step()->0.policy == Policy::Ignore {
                    old(self).error
                } else {
                    Some(e)
                },
            }),
    {
        match self.place {
            Place::Main(i) => {
                let length: usize = self.program.main.len();
                assert(i < length);
                let policy = self.program.main[i].policy;
                assert(policies(self.program.main@)[i as int] == policy);
                match outcome {
                    Ok(_) => {
                        self.place = Place::Main(i + 1);
                    },
                    Err(e) => match policy {
                        Policy::Ignore => {
                            self.place = Place::Main(i + 1);
                        },
                        Policy::Fail => {
                            self.place = Place::Stopped;
                            self.error = Some(e);
                        },
                        Policy::Undo(k) => {
                            self.place = Place::Undo(k, 0);
                            self.error = Some(e);
                        },
                    },
                }
            },
            Place::Undo(k, i) => {
                let length: usize = self.program.undos[k].len();
                assert(i < length);
                let policy = self.program.undos[k][i].policy;
                match outcome {
                    Ok(_) => {
                        self.place = Place::Undo(k, i + 1);
                    },
                    Err(e) => match policy {
                        Policy::Ignore => {
                            self.place = Place::Undo(k, i + 1);
                        },
                        _ => {
                            self.place = Place::Stopped;
                            self.error = Some(e);
                        },
                    },
                }
            },
            Place::Stopped => {},
        }
    }

    /// How the program ended.
    pub fn outcome(self) -> (r: Result<(), ManagerError>)
        requires
            self.wf(),
            self.step() is None,
        ensures
            match r {
                Ok(_) => self.place == Place::Main(self.program.main@.len() as usize),
                Err(e) => self.error == Some(e) && !(self.place is Main),
            },
    {
        match self.error {
            Some(e) => Err(e),
            None => Ok(()),
        }
    }
}

/// The mathematical value of a [`Step`].
#[verifier::ext_equal]
pub struct StepView<V> {
    pub effect: V,
    pub policy: Policy,
}

/// The mathematical value of a [`Program`].
#[verifier::ext_equal]
pub struct ProgramView<V> {
    pub main: Seq<StepView<V>>,
    pub undos: Seq<Seq<StepView<V>>>,
}

pub open spec fn step_views<E: View>(steps: Seq<Step<E>>) -> Seq<StepView<E::V>> {
    steps.map_values(|s: Step<E>| StepView { effect: s.effect@, policy: s.policy })
}

pub open spec fn undo_views<E: View>(undos: Seq<Vec<Step<E>>>) -> Seq<Seq<StepView<E::V>>> {
    undos.map_values(|b: Vec<Step<E>>| step_views(b@))
}

impl<E: View> View for Program<E> {
    type V = ProgramView<E::V>;

    open spec fn view(&self) -> ProgramView<E::V> {
        ProgramView { main: step_views(self.main@), undos: undo_views(self.undos@) }
    }
}

/// A step of an effect.
pub open spec fn step<V>(effect: V, policy: Policy) -> StepView<V> {
    StepView { effect, policy }
}

/// Appends a step.
pub fn push_step<E: View>(steps: &mut Vec<Step<E>>, effect: E, policy: Policy)
    ensures
        step_views(final(steps)@) == step_views(old(steps)@).push(step(effect@, policy)),
{
    let ghost before = steps@;
    steps.push(Step { effect, policy });
    assert(step_views(steps@) =~= step_views(before).push(step(effect@, policy)));
}

/// A list of no steps.
pub fn no_steps<E: View>() -> (r: Vec<Step<E>>)
    ensures
        step_views(r@) == Seq::<StepView<E::V>>::empty(),
{
    let r: Vec<Step<E>> = Vec::new();
    assert(step_views(r@) =~= Seq::<StepView<E::V>>::empty());
    r
}

/// Every undo block that a step of the program refers to is there.
pub open spec fn refers_inside<V>(p: ProgramView<V>) -> bool {
    forall|i: int| 0 <= i < p.main.len() ==> match (#[trigger] p.main[i]).policy {
        Policy::Undo(k) => k < p.undos.len(),
        _ => true,
    }
}

pub proof fn lemma_refers_inside<E: View>(p: Program<E>)
    requires
        refers_inside(p@),
    ensures
        p.wf(),
{
    assert forall|i: int| 0 <= i < policies(p.main@).len() implies match #[trigger] policies(
        p.main@,
    )[i] {
        Policy::Undo(k) => k < p.undos@.len(),
        _ => true,
    } by {
        assert(p@.main[i].policy == p.main@[i].policy);
    }
}

/// The step before which a program stands.
pub open spec fn step_at<V>(p: ProgramView<V>, at: At) -> Option<StepView<V>> {
    match at {
        At::Main(i) => if 0 <= i < p.main.len() {
            Some(p.main[i])
        } else {
            None
        },
        At::Undo(k, i) => if 0 <= k < p.undos.len() && 0 <= i < p.undos[k].len() {
            Some(p.undos[k][i])
        } else {
            None
        },
        At::Stopped => None,
    }
}

/// What a runner stands before is the step of its program at its place.
pub proof fn law_runner_follows_its_program<E: View>(r: Runner<E>)
    requires
        r.wf(),
    ensures
        step_at(r.program@, r.place@) == (match r.step() {
            Some(s) => Some(StepView { effect: s.effect@, policy: s.policy }),
            None => None,
        }),
{
    match r.place {
        Place::Undo(k, i) => {
            assert(undo_views(r.program.undos@)[k as int] == step_views(
                r.program.undos@[k as int]@,
            ));
        },
        _ => {},
    }
}

/// The main part comes before undoing.
pub open spec fn phase(at: At) -> nat {
    if at is Main {
        1
    } else {
        0
    }
}

/// How many steps there are from a place to the end of its part.
pub open spec fn steps_left<V>(p: ProgramView<V>, at: At) -> nat {
    match at {
        At::Main(i) => if i < p.main.len() {
            (p.main.len() - i) as nat
        } else {
            0
        },
        At::Undo(k, i) => if i < p.undos[k].len() {
            (p.undos[k].len() - i) as nat
        } else {
            0
        },
        At::Stopped => 0,
    }
}

/// The effects that a run performs from a place on, without those that fail;
/// the step at a place fails where `fails` says so.
pub open spec fn run_from<V>(p: ProgramView<V>, at: At, fails: spec_fn(At) -> bool) -> Seq<V>
    decreases phase(at), steps_left(p, at),
{
    match step_at(p, at) {
        None => Seq::empty(),
        Some(s) => {
            let rest = run_from(p, next_at(at, s.policy, !fails(at)), fails);
            if fails(at) {
                rest
            } else {
                seq![s.effect] + rest
            }
        },
    }
}

/// What a run from a place performs: nothing at the end; otherwise the effect
/// there, unless it fails, and then what a run from the next place performs.
proof fn lemma_run_from<V>(p: ProgramView<V>, at: At, fails: spec_fn(At) -> bool)
    ensures
        run_from(p, at, fails) == (match step_at(p, at) {
            None => Seq::empty(),
            Some(s) => (if fails(at) {
                Seq::empty()
            } else {
                seq![s.effect]
            }) + run_from(p, next_at(at, s.policy, !fails(at)), fails),
        }),
{
    match step_at(p, at) {
        None => {},
        Some(s) => {
            let rest = run_from(p, next_at(at, s.policy, !fails(at)), fails);
            assert(Seq::<V>::empty() + rest =~= rest);
        },
    }
}

/// The effects of steps.
pub open spec fn effects<V>(steps: Seq<StepView<V>>) -> Seq<V> {
    steps.map_values(|s: StepView<V>| s.effect)
}

/// What a world becomes when effects succeed, one after the other.
pub open spec fn world_of<V, W>(done: Seq<V>, apply: spec_fn(W, V) -> W, w: W) -> W
    decreases done.len(),
{
    if done.len() == 0 {
        w
    } else {
        apply(world_of(done.drop_last(), apply, w), done.last())
    }
}

proof fn lemma_world_of<V, W>(steps: Seq<StepView<V>>, apply: spec_fn(W, V) -> W, w: W)
    ensures
        world_of(effects(steps), apply, w) == world_after(steps, apply, w),
    decreases steps.len(),
{
    if steps.len() > 0 {
        assert(effects(steps).drop_last() =~= effects(steps.drop_last()));
        lemma_world_of(steps.drop_last(), apply, w);
    }
}

proof fn lemma_undo_run<V>(p: ProgramView<V>, k: int, j: int, fails: spec_fn(At) -> bool)
    requires
        0 <= k < p.undos.len(),
        0 <= j <= p.undos[k].len(),
        forall|i: int| !#[trigger] fails(At::Undo(k, i)),
    ensures
        run_from(p, At::Undo(k, j), fails) == effects(p.undos[k].skip(j)),
    decreases p.undos[k].len() - j,
{
    let b = p.undos[k];
    lemma_run_from(p, At::Undo(k, j), fails);
    if j < b.len() {
        assert(!fails(At::Undo(k, j)));
        lemma_undo_run(p, k, j + 1, fails);
        assert(effects(b.skip(j)) =~= seq![b[j].effect] + effects(b.skip(j + 1)));
    } else {
        assert(effects(b.skip(j)) =~= Seq::<V>::empty());
    }
}

proof fn lemma_main_run<V>(p: ProgramView<V>, j: int, i: int, fails: spec_fn(At) -> bool)
    requires
        0 <= j <= i <= p.main.len(),
        forall|m: int| j <= m < i ==> !#[trigger] fails(At::Main(m)),
    ensures
        run_from(p, At::Main(j), fails) == effects(p.main.subrange(j, i)) + run_from(
            p,
            At::Main(i),
            fails,
        ),
    decreases i - j,
{
    let m = p.main;
    let rest = run_from(p, At::Main(i), fails);
    if j < i {
        lemma_run_from(p, At::Main(j), fails);
        assert(!fails(At::Main(j)));
        lemma_main_run(p, j + 1, i, fails);
        assert(effects(m.subrange(j, i)) + rest =~= seq![m[j].effect] + (effects(
            m.subrange(j + 1, i),
        ) + rest));
    } else {
        assert(effects(m.subrange(j, i)) + rest =~= rest);
    }
}

/// A run in which nothing fails performs every main step in order, and so ends
/// in the world after them.
pub proof fn law_completed_run<V, W>(
    p: ProgramView<V>,
    fails: spec_fn(At) -> bool,
    apply: spec_fn(W, V) -> W,
    w: W,
)
    requires
        forall|at: At| !#[trigger] fails(at),
    ensures
        run_from(p, At::Main(0), fails) == effects(p.main),
        world_of(run_from(p, At::Main(0), fails), apply, w) == world_after(p.main, apply, w),
{
    let n = p.main.len() as int;
    lemma_main_run(p, 0, n, fails);
    lemma_run_from(p, At::Main(n), fails);
    assert(p.main.subrange(0, n) =~= p.main);
    assert(effects(p.main) + Seq::<V>::empty() =~= effects(p.main));
    lemma_world_of(p.main, apply, w);
}

/// A run in which one main step fails, and the program does not ignore that,
/// performs the main steps before it and then the undo block that it names,
/// where it names one; it so ends in the world of that failure.
pub proof fn law_failed_run<V, W>(
    p: ProgramView<V>,
    i: int,
    fails: spec_fn(At) -> bool,
    apply: spec_fn(W, V) -> W,
    w: W,
)
    requires
        refers_inside(p),
        0 <= i < p.main.len(),
        p.main[i].policy != Policy::Ignore,
        forall|at: At| #[trigger] fails(at) <==> at == At::Main(i),
    ensures
        run_from(p, At::Main(0), fails) == effects(p.main.take(i)) + (match p.main[i].policy {
            Policy::Undo(k) => effects(p.undos[k as int]),
            _ => Seq::empty(),
        }),
        world_of(run_from(p, At::Main(0), fails), apply, w) == world_of_failure(p, apply, i, w),
{
    let before = p.main.take(i);
    assert(p.main.subrange(0, i) =~= before);
    assert forall|m: int| 0 <= m < i implies !#[trigger] fails(At::Main(m)) by {
        assert(At::Main(m) != At::Main(i));
    }
    lemma_main_run(p, 0, i, fails);
    lemma_run_from(p, At::Main(i), fails);
    assert(fails(At::Main(i)));
    match p.main[i].policy {
        Policy::Undo(k) => {
            let b = p.undos[k as int];
            lemma_undo_run(p, k as int, 0, fails);
            assert(b.skip(0) =~= b);
            assert(Seq::<V>::empty() + effects(b) =~= effects(b));
            lemma_world_concat(before, b, apply, w);
            assert(effects(before + b) =~= effects(before) + effects(b));
            lemma_world_of(before + b, apply, w);
        },
        _ => {
            lemma_run_from(p, At::Stopped, fails);
            assert(effects(before) + Seq::<V>::empty() =~= effects(before));
            lemma_world_of(before, apply, w);
        },
    }
}

/// What a world becomes when the effects of the steps all succeed.
pub open spec fn world_after<V, W>(
    steps: Seq<StepView<V>>,
    apply: spec_fn(W, V) -> W,
    w: W,
) -> W
    decreases steps.len(),
{
    if steps.len() == 0 {
        w
    } else {
        apply(world_after(steps.drop_last(), apply, w), steps.last().effect)
    }
}

/// What a world becomes when the main effects before `i` succeed, the effect
/// `i` fails without a trace, and the undo block that it refers to succeeds.
pub open spec fn world_of_failure<V, W>(
    p: ProgramView<V>,
    apply: spec_fn(W, V) -> W,
    i: int,
    w: W,
) -> W {
    let reached = world_after(p.main.take(i), apply, w);
    match p.main[i].policy {
        Policy::Undo(k) => world_after(p.undos[k as int], apply, reached),
        _ => reached,
    }
}

pub proof fn lemma_world_concat<V, W>(
    a: Seq<StepView<V>>,
    b: Seq<StepView<V>>,
    apply: spec_fn(W, V) -> W,
    w: W,
)
    ensures
        world_after(a + b, apply, w) == world_after(b, apply, world_after(a, apply, w)),
    decreases b.len(),
{
    if b.len() == 0 {
        assert(a + b =~= a);
    } else {
        assert((a + b).drop_last() =~= a + b.drop_last());
        lemma_world_concat(a, b.drop_last(), apply, w);
    }
}

/// Effects that change nothing leave the world as it was.
pub proof fn lemma_world_unchanged<V, W>(
    steps: Seq<StepView<V>>,
    apply: spec_fn(W, V) -> W,
    w: W,
)
    requires
        forall|i: int, x: W|
            0 <= i < steps.len() ==> #[trigger] apply(x, (#[trigger] steps[i]).effect) == x,
    ensures
        world_after(steps, apply, w) == w,
    decreases steps.len(),
{
    if steps.len() > 0 {
        let rest = steps.drop_last();
        assert forall|i: int, x: W| 0 <= i < rest.len() implies #[trigger] apply(
            x,
            (#[trigger] rest[i]).effect,
        ) == x by {
            assert(rest[i] == steps[i]);
        }
        lemma_world_unchanged(rest, apply, w);
        assert(apply(w, steps[steps.len() - 1].effect) == w);
    }
}

} // verus!
