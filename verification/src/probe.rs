//! Probing nodes.

use crate::error::{ManagerError, ManagerErrorView};
use crate::events::{ManagerEvent, ManagerEventView};
use crate::ports::{ProbeResult, ProbeResultView};
use crate::error;
use crate::text;
use vstd::prelude::*;

verus! {

/// A probed node by ID and its outcome.
#[derive(Debug)]
pub struct NodeProbeOutcome {
    pub node_id: String,
    pub result: ProbeResult,
}

/// The mathematical value of a [`NodeProbeOutcome`].
#[verifier::ext_equal]
pub struct NodeProbeOutcomeView {
    pub node_id: Seq<char>,
    pub result: ProbeResultView,
}

impl View for NodeProbeOutcome {
    type V = NodeProbeOutcomeView;

    open spec fn view(&self) -> NodeProbeOutcomeView {
        NodeProbeOutcomeView {
            node_id: self.node_id@,
            result: self.result@,
        }
    }
}

impl Clone for NodeProbeOutcome {
    fn clone(&self) -> (r: Self)
        ensures
            r@ == self@,
    {
        NodeProbeOutcome {
            node_id: self.node_id.clone(),
            result: self.result.clone(),
        }
    }
}

pub open spec fn node_probe_outcome_views(v: Seq<NodeProbeOutcome>) -> Seq<NodeProbeOutcomeView> {
    v.map_values(|x: NodeProbeOutcome| x@)
}

pub broadcast proof fn lemma_node_probe_outcome_views_push(v: Seq<NodeProbeOutcome>, x: NodeProbeOutcome)
    ensures
        #[trigger] node_probe_outcome_views(v.push(x)) == node_probe_outcome_views(v).push(x@),
{
    assert(node_probe_outcome_views(v.push(x)) =~= node_probe_outcome_views(v).push(x@));
}

/// What a probe came to.
pub open spec fn probe_result(reply: Result<ProbeResultView, ManagerErrorView>) -> ProbeResultView {
    match reply {
        Ok(result) => result,
        Err(e) => ProbeResultView { latency_ms: None, error: Some(error::error_message(e)) },
    }
}

/// The event of a finished probe.
pub open spec fn probe_event(
    id: Seq<char>,
    reply: Result<ProbeResultView, ManagerErrorView>,
) -> ManagerEventView {
    match reply {
        Ok(result) => match result.latency_ms {
            Some(latency_ms) => ManagerEventView::NodeProbeSucceeded { node_id: id, latency_ms },
            None => ManagerEventView::NodeProbeFailed {
                node_id: id,
                error: text::text_or(result.error, "probe failed"@),
            },
        },
        Err(e) => ManagerEventView::NodeProbeFailed { node_id: id, error: error::error_message(e) },
    }
}

/// What a probe that never began came to.
pub open spec fn cancelled_result() -> ProbeResultView {
    ProbeResultView { latency_ms: None, error: Some("cancelled"@) }
}

pub open spec fn probe_reply(r: Result<ProbeResult, ManagerError>) -> Result<
    ProbeResultView,
    ManagerErrorView,
> {
    match r {
        Ok(result) => Ok(result@),
        Err(e) => Err(e@),
    }
}

/// The outcome and the event of a probe that ran.
pub fn finished_probe(id: &str, reply: Result<ProbeResult, ManagerError>) -> (r: (
    NodeProbeOutcome,
    ManagerEvent,
))
    ensures
        r.0@ == (NodeProbeOutcomeView { node_id: id@, result: probe_result(probe_reply(reply)) }),
        r.1@ == probe_event(id@, probe_reply(reply)),
{
    match reply {
        Ok(result) => {
            let event = match result.latency_ms {
                Some(latency_ms) => ManagerEvent::NodeProbeSucceeded {
                    node_id: text::owned(id),
                    latency_ms,
                },
                None => ManagerEvent::NodeProbeFailed {
                    node_id: text::owned(id),
                    error: text::unwrap_text(text::copy_opt(&result.error), "probe failed"),
                },
            };
            (NodeProbeOutcome { node_id: text::owned(id), result }, event)
        },
        Err(e) => {
            let message = e.message();
            let event = ManagerEvent::NodeProbeFailed {
                node_id: text::owned(id),
                error: message.clone(),
            };
            (
                NodeProbeOutcome {
                    node_id: text::owned(id),
                    result: ProbeResult { latency_ms: None, error: Some(message) },
                },
                event,
            )
        },
    }
}

/// What to do next in a batch of probes.
#[derive(Debug, Clone, Copy, PartialEq, Eq, Structural)]
pub enum ProbeStep {
    /// The probe of the node at this place begins.
    Begin(usize),
    /// The node at this place is passed over because of a cancellation.
    Skip(usize),
    /// A running probe has to end first.
    Wait,
    /// Every node has its outcome.
    Done,
}

/// A batch of probes, of which only so many run at a time.
#[derive(Debug)]
pub struct ProbeBatch {
    ids: Vec<String>,
    slots: usize,
    started: usize,
    running: Vec<usize>,
    ended: Vec<usize>,
    outcomes: Vec<NodeProbeOutcome>,
}

/// The mathematical value of a [`ProbeBatch`]: the nodes in order, how many
/// probes may run at a time, how many nodes were taken up, which of them are
/// running, which have ended, and the outcomes of the latter.
#[verifier::ext_equal]
pub struct ProbeBatchView {
    pub ids: Seq<Seq<char>>,
    pub slots: nat,
    pub started: nat,
    pub running: Seq<usize>,
    pub ended: Seq<usize>,
    pub outcomes: Seq<NodeProbeOutcomeView>,
}

/// The places below `n`.
pub open spec fn places(n: nat) -> Seq<usize> {
    Seq::new(n, |i: int| i as usize)
}

impl ProbeBatchView {
    /// A limited number of probes run, and each node that was taken up is
    /// either running or has exactly one outcome, which is its own.
    pub open spec fn wf(self) -> bool {
        &&& 1 <= self.slots
        &&& self.running.len() <= self.slots
        &&& self.started <= self.ids.len() <= usize::MAX
        &&& self.running.to_multiset().add(self.ended.to_multiset()) =~= places(
            self.started,
        ).to_multiset()
        &&& self.outcomes.len() == self.ended.len()
        &&& forall|i: int|
            0 <= i < self.ended.len() ==> self.ended[i] < self.ids.len() && (
            #[trigger] self.outcomes[i]).node_id == self.ids[self.ended[i] as int]
        &&& forall|i: int|
            0 <= i < self.running.len() ==> (#[trigger] self.running[i]) < self.started
    }
}

/// What comes next in a batch.
pub open spec fn next_step(b: ProbeBatchView, cancelled: bool) -> ProbeStep {
    if b.started < b.ids.len() && b.running.len() < b.slots {
        if cancelled {
            ProbeStep::Skip(b.started as usize)
        } else {
            ProbeStep::Begin(b.started as usize)
        }
    } else if b.running.len() > 0 {
        ProbeStep::Wait
    } else {
        ProbeStep::Done
    }
}

/// The batch after the next step.
pub open spec fn after_step(b: ProbeBatchView, cancelled: bool) -> ProbeBatchView {
    match next_step(b, cancelled) {
        ProbeStep::Begin(i) => ProbeBatchView {
            started: b.started + 1,
            running: b.running.push(i),
            ..b
        },
        ProbeStep::Skip(i) => ProbeBatchView {
            started: b.started + 1,
            ended: b.ended.push(i),
            outcomes: b.outcomes.push(
                NodeProbeOutcomeView { node_id: b.ids[i as int], result: cancelled_result() },
            ),
            ..b
        },
        _ => b,
    }
}

/// The event of a step.
pub open spec fn step_event(b: ProbeBatchView, s: ProbeStep) -> Option<ManagerEventView> {
    match s {
        ProbeStep::Begin(i) => Some(
            ManagerEventView::NodeProbeStarted { node_id: b.ids[i as int] },
        ),
        ProbeStep::Skip(i) => Some(
            ManagerEventView::NodeProbeCancelled { node_id: b.ids[i as int] },
        ),
        _ => None,
    }
}

pub open spec fn opt_event(o: Option<ManagerEvent>) -> Option<ManagerEventView> {
    match o {
        Some(e) => Some(e@),
        None => None,
    }
}

/// The batch after the running probe at `at` ended.
pub open spec fn after_end(
    b: ProbeBatchView,
    at: int,
    reply: Result<ProbeResultView, ManagerErrorView>,
) -> ProbeBatchView {
    ProbeBatchView {
        running: b.running.remove(at),
        ended: b.ended.push(b.running[at]),
        outcomes: b.outcomes.push(
            NodeProbeOutcomeView {
                node_id: b.ids[b.running[at] as int],
                result: probe_result(reply),
            },
        ),
        ..b
    }
}

impl View for ProbeBatch {
    type V = ProbeBatchView;

    closed spec fn view(&self) -> ProbeBatchView {
        ProbeBatchView {
            ids: text::texts(self.ids@),
            slots: self.slots as nat,
            started: self.started as nat,
            running: self.running@,
            ended: self.ended@,
            outcomes: node_probe_outcome_views(self.outcomes@),
        }
    }
}

proof fn lemma_next_place(n: nat)
    requires
        n < usize::MAX,
    ensures
        places(n + 1).to_multiset() =~= places(n).to_multiset().insert(n as usize),
{
    broadcast use vstd::seq_lib::group_to_multiset_ensures;

    assert(places(n + 1) =~= places(n).push(n as usize));
}

impl ProbeBatch {
    /// A batch of the nodes with these IDs. At least one probe may run.
    pub fn new(ids: Vec<String>, concurrency: usize) -> (r: ProbeBatch)
        ensures
            r@ == (ProbeBatchView {
                ids: text::texts(ids@),
                slots: if concurrency == 0 {
                    1
                } else {
                    concurrency as nat
                },
                started: 0,
                running: Seq::empty(),
                ended: Seq::empty(),
                outcomes: Seq::empty(),
            }),
            r@.wf(),
    {
        broadcast use vstd::seq_lib::group_to_multiset_ensures;

        let count: usize = ids.len();
        let slots: usize = if concurrency == 0 {
            1
        } else {
            concurrency
        };
        let ghost none = Seq::<usize>::empty();
        assert(places(0) =~= none);
        assert(none.to_multiset().add(none.to_multiset()) =~= none.to_multiset());
        let outcomes: Vec<NodeProbeOutcome> = Vec::new();
        assert(node_probe_outcome_views(outcomes@) =~= Seq::empty());
        assert(text::texts(ids@).len() == count);
        ProbeBatch { ids, slots, started: 0, running: Vec::new(), ended: Vec::new(), outcomes }
    }

    /// Takes the next step, and hands out its event.
    pub fn step(&mut self, cancelled: bool) -> (r: (ProbeStep, Option<ManagerEvent>))
        requires
            old(self)@.wf(),
        ensures
            final(self)@.wf(),
            final(self)@ == after_step(old(self)@, cancelled),
            r.0 == next_step(old(self)@, cancelled),
            opt_event(r.1) == step_event(old(self)@, r.0),
    {
        broadcast use vstd::seq_lib::group_to_multiset_ensures;

        let ghost before = self@;
        let at: usize = self.started;
        let total: usize = self.ids.len();
        if at < total && self.running.len() < self.slots {
            let id = self.ids[at].clone();
            proof {
                lemma_next_place(at as nat);
                assert(id@ == before.ids[at as int]);
            }
            self.started = at + 1;
            if cancelled {
                let outcome = NodeProbeOutcome {
                    node_id: id.clone(),
                    result: ProbeResult { latency_ms: None, error: Some(text::owned("cancelled")) },
                };
                proof {
                    lemma_node_probe_outcome_views_push(self.outcomes@, outcome);
                }
                self.ended.push(at);
                self.outcomes.push(outcome);
                proof {
                    assert(self@ =~= after_step(before, cancelled));
                    assert(before.running.to_multiset().add(before.ended.push(at).to_multiset())
                        =~= before.running.to_multiset().add(before.ended.to_multiset()).insert(at));
                }
                (ProbeStep::Skip(at), Some(ManagerEvent::NodeProbeCancelled { node_id: id }))
            } else {
                self.running.push(at);
                proof {
                    assert(self@ =~= after_step(before, cancelled));
                    assert(before.running.push(at).to_multiset().add(before.ended.to_multiset())
                        =~= before.running.to_multiset().add(before.ended.to_multiset()).insert(at));
                }
                (ProbeStep::Begin(at), Some(ManagerEvent::NodeProbeStarted { node_id: id }))
            }
        } else if self.running.len() > 0 {
            (ProbeStep::Wait, None)
        } else {
            (ProbeStep::Done, None)
        }
    }

    /// Where in the list of running probes the node at `place` is.
    pub fn position(&self, place: usize) -> (r: Option<usize>)
        ensures
            match r {
                Some(at) => at < self@.running.len() && self@.running[at as int] == place,
                None => !self@.running.contains(place),
            },
    {
        let mut i: usize = 0;
        while i < self.running.len()
            invariant
                i <= self.running@.len(),
                forall|j: int| 0 <= j < i ==> self.running@[j] != place,
            decreases self.running@.len() - i,
        {
            if self.running[i] == place {
                return Some(i);
            }
            i += 1;
        }
        None
    }

    /// Takes in the reply of the running probe at `at`, and hands out its event
    /// and a copy of its outcome.
    pub fn end(&mut self, at: usize, reply: Result<ProbeResult, ManagerError>) -> (r: (
        NodeProbeOutcome,
        ManagerEvent,
    ))
        requires
            old(self)@.wf(),
            at < old(self)@.running.len(),
        ensures
            final(self)@.wf(),
            final(self)@ == after_end(old(self)@, at as int, probe_reply(reply)),
            r.0@ == final(self)@.outcomes.last(),
            r.1@ == probe_event(
                old(self)@.ids[old(self)@.running[at as int] as int],
                probe_reply(reply),
            ),
    {
        broadcast use vstd::seq_lib::group_to_multiset_ensures;

        let ghost before = self@;
        let place: usize = self.running[at];
        assert(before.running[at as int] < before.started);
        let id = self.ids[place].clone();
        assert(id@ == before.ids[place as int]);
        let (outcome, event) = finished_probe(id.as_str(), reply);
        let copy = outcome.clone();
        proof {
            lemma_node_probe_outcome_views_push(self.outcomes@, outcome);
        }
        let place_again: usize = self.running.remove(at);
        self.ended.push(place);
        self.outcomes.push(outcome);
        proof {
            let want = after_end(before, at as int, probe_reply(reply));
            assert(self@ =~= want);
            assert(before.running.contains(place)) by {
                assert(before.running[at as int] == place);
            }
            assert(want.running.to_multiset().add(want.ended.to_multiset())
                =~= before.running.to_multiset().add(before.ended.to_multiset()));
            assert forall|i: int| 0 <= i < want.running.len() implies (#[trigger] want.running[i])
                < want.started by {
                if i < at {
                    assert(want.running[i] == before.running[i]);
                } else {
                    assert(want.running[i] == before.running[i + 1]);
                }
            }
        }
        (copy, event)
    }

    /// The outcomes, in the order in which the probes ended.
    pub fn outcomes(self) -> (r: Vec<NodeProbeOutcome>)
        ensures
            node_probe_outcome_views(r@) == self@.outcomes,
    {
        self.outcomes
    }
}

/// A batch that is done holds exactly one outcome of every node.
pub proof fn law_every_node_has_one_outcome(b: ProbeBatchView, cancelled: bool)
    requires
        b.wf(),
        next_step(b, cancelled) == ProbeStep::Done,
    ensures
        b.outcomes.len() == b.ids.len(),
        b.ended.to_multiset() =~= places(b.ids.len()).to_multiset(),
        forall|i: int|
            0 <= i < b.outcomes.len() ==> (#[trigger] b.outcomes[i]).node_id
                == b.ids[b.ended[i] as int],
{
    broadcast use vstd::seq_lib::group_to_multiset_ensures;

    assert(b.running =~= Seq::<usize>::empty());
    assert(b.started == b.ids.len());
    let none = Seq::<usize>::empty();
    assert(none.to_multiset().add(b.ended.to_multiset()) =~= b.ended.to_multiset());
    assert(b.ended.len() == b.ended.to_multiset().len());
    assert(places(b.ids.len()).len() == places(b.ids.len()).to_multiset().len());
}

/// A cancelled batch begins no further probe.
pub proof fn law_cancelled_batch_begins_nothing(b: ProbeBatchView)
    ensures
        !(next_step(b, true) is Begin),
        after_step(b, true).running == b.running,
{
}

} // verus!
