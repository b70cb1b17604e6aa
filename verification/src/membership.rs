//! Joining a running cluster: a new node asks the replica it was told leads
//! to add it, and, while the answer is that this replica does not lead, asks
//! the other replicas in turn, round and round, until one answers.
use vstd::prelude::*;
use crate::kvproto::kvrpcpb::RespErr;

verus! {

/// The first position at or after `start` that holds a replica other than
/// the joining node.
pub open spec fn first_other_from(order: Seq<u64>, self_id: u64, start: int) -> Option<int>
    decreases order.len() - start,
{
    if start < 0 || start >= order.len() {
        None
    } else if order[start] != self_id {
        Some(start)
    } else {
        first_other_from(order, self_id, start + 1)
    }
}

/// The position of the replica to ask after the one at `last` (or, where
/// `last` is `None`, after the first replica asked, which began the round):
/// the next other replica in order, starting over at the front after the last.
pub open spec fn next_target(order: Seq<u64>, self_id: u64, last: Option<int>) -> Option<int> {
    let start = match last {
        Some(p) => p + 1,
        None => 0,
    };
    match first_other_from(order, self_id, start) {
        Some(i) => Some(i),
        None => first_other_from(order, self_id, 0),
    }
}

/// Whether an answer ends the asking: the change was made, or refused for
/// good; only "not the leader" sends the node on to another replica.
pub open spec fn answer_ends(answer: RespErr) -> bool {
    answer != RespErr::ErrWrongLeader
}

/// Whether the outcome of a call ends the asking; a failed call does not.
pub open spec fn stops_asking(answer: Option<RespErr>) -> bool {
    match answer {
        Some(a) => answer_ends(a),
        None => false,
    }
}

/// What the joining node does next.
#[derive(Clone, Copy, Debug, PartialEq, Eq, Structural)]
pub enum JoinStep {
    /// Ask the replica with this id.
    Ask(u64),
    /// Stop: a replica answered.
    Done,
    /// Every replica but the node itself has been tried and there is no
    /// one else to ask: the node keeps waiting without asking.
    Stuck,
}

/// The state of a node joining a cluster: its own id, the replicas it knows
/// in the order it asks them, and the position of the last one asked
/// (`None` while the first replica asked is the one it was told leads).
pub struct JoinRetry {
    self_id: u64,
    order: Vec<u64>,
    last: Option<usize>,
}

fn first_other(order: &Vec<u64>, self_id: u64, start: usize) -> (r: Option<usize>)
    requires
        start <= order@.len(),
    ensures
        match first_other_from(order@, self_id, start as int) {
            Some(i) => r == Some(i as usize),
            None => r is None,
        },
{
    let mut i = start;
    while i < order.len()
        invariant
            start <= i <= order@.len(),
            first_other_from(order@, self_id, start as int) == first_other_from(
                order@,
                self_id,
                i as int,
            ),
        decreases order@.len() - i,
    {
        if order[i] != self_id {
            return Some(i);
        }
        i = i + 1;
    }
    None
}

/// Whether `x` is in `order`, and where it first is.
fn position_of(order: &Vec<u64>, x: u64) -> (r: Option<usize>)
    ensures
        match r {
            Some(i) => i < order@.len() && order@[i as int] == x,
            None => !order@.contains(x),
        },
{
    let mut i: usize = 0;
    while i < order.len()
        invariant
            i <= order@.len(),
            forall|j: int| 0 <= j < i ==> order@[j] != x,
        decreases order@.len() - i,
    {
        if order[i] == x {
            return Some(i);
        }
        i = i + 1;
    }
    None
}

impl JoinRetry {
    /// The node's own id.
    pub closed spec fn spec_self_id(&self) -> u64 {
        self.self_id
    }

    /// The replicas in the order they are asked.
    pub closed spec fn spec_order(&self) -> Seq<u64> {
        self.order@
    }

    /// The position of the last replica asked, once the round began.
    pub closed spec fn spec_last(&self) -> Option<int> {
        match self.last {
            Some(p) => Some(p as int),
            None => None,
        }
    }

    /// The invariant: the last position asked is a position of `order`.
    pub closed spec fn wf(&self) -> bool {
        self.last matches Some(p) ==> p < self.order@.len()
    }

    /// Begins joining: the node first asks the replica it was told leads,
    /// which must be one it knows; `None` where it is not.
    pub fn new(self_id: u64, leader_id: u64, order: Vec<u64>) -> (r: Option<(JoinRetry, JoinStep)>)
        ensures
            match r {
                Some((j, step)) => order@.contains(leader_id) && step == JoinStep::Ask(leader_id)
                    && j.wf() && j.spec_self_id() == self_id && j.spec_order() == order@
                    && j.spec_last() is None,
                None => !order@.contains(leader_id),
            },
    {
        match position_of(&order, leader_id) {
            Some(_) => Some((JoinRetry { self_id, order, last: None }, JoinStep::Ask(leader_id))),
            None => None,
        }
    }

    /// Takes the answer of the replica last asked (`None` where the call
    /// failed, which counts as "not the leader") and says what to do next.
    pub fn on_answer(&mut self, answer: Option<RespErr>) -> (r: JoinStep)
        requires
            old(self).wf(),
        ensures
            final(self).wf(),
            final(self).spec_self_id() == old(self).spec_self_id(),
            final(self).spec_order() == old(self).spec_order(),
            stops_asking(answer) ==> r == JoinStep::Done
                && final(self).spec_last() == old(self).spec_last(),
            !stops_asking(answer) ==> match next_target(
                old(self).spec_order(),
                old(self).spec_self_id(),
                old(self).spec_last(),
            ) {
                Some(i) => r == JoinStep::Ask(old(self).spec_order()[i]) && final(self).spec_last()
                    == Some(i),
                None => r == JoinStep::Stuck && final(self).spec_last() == old(self).spec_last(),
            },
    {
        let ends = match answer {
            Some(RespErr::ErrWrongLeader) => false,
            Some(_) => true,
            None => false,
        };
        if ends {
            return JoinStep::Done;
        }
        let n = self.order.len();
        let start = match self.last {
            Some(p) => p + 1,
            None => 0,
        };
        proof {
            lemma_first_other_found(self.order@, self.self_id, start as int);
            lemma_first_other_found(self.order@, self.self_id, 0);
        }
        let found = match first_other(&self.order, self.self_id, start) {
            Some(i) => Some(i),
            None => first_other(&self.order, self.self_id, 0),
        };
        match found {
            Some(i) => {
                self.last = Some(i);
                JoinStep::Ask(self.order[i])
            },
            None => JoinStep::Stuck,
        }
    }
}

proof fn lemma_first_other_found(order: Seq<u64>, self_id: u64, start: int)
    ensures
        match first_other_from(order, self_id, start) {
            Some(i) => start <= i < order.len() && order[i] != self_id && forall|j: int|
                start <= j < i ==> order[j] == self_id,
            None => forall|j: int| 0 <= start <= j < order.len() ==> order[j] == self_id,
        },
    decreases order.len() - start,
{
    if 0 <= start < order.len() && order[start] == self_id {
        lemma_first_other_found(order, self_id, start + 1);
    }
}

/// A joining node never asks itself; it asks someone whenever it knows a
/// replica other than itself; and the replica it asks is the first other
/// one after the last asked, so that every other replica is asked once in
/// each round.
pub proof fn lemma_next_target(order: Seq<u64>, self_id: u64, last: Option<int>)
    requires
        last matches Some(p) ==> 0 <= p < order.len(),
    ensures
        next_target(order, self_id, last) matches Some(i) ==> 0 <= i < order.len() && order[i]
            != self_id,
        (exists|j: int| 0 <= j < order.len() && order[j] != self_id) ==> next_target(
            order,
            self_id,
            last,
        ) is Some,
        ({
            let start = match last {
                Some(p) => p + 1,
                None => 0,
            };
            match next_target(order, self_id, last) {
                Some(i) => i >= start ==> forall|j: int| start <= j < i ==> order[j] == self_id,
                None => true,
            }
        }),
{
    let start = match last {
        Some(p) => p + 1,
        None => 0,
    };
    lemma_first_other_found(order, self_id, start);
    lemma_first_other_found(order, self_id, 0);
}

} // verus!
