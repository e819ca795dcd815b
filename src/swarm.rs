use vstd::prelude::*;

verus! {

/// Committee size used when a caller does not choose one.
pub const DEFAULT_COMMITTEE_SIZE: usize = 4;

/// The shape of a swarm before launch: how many validators form the
/// committee and how many non-validating full nodes run beside them.
#[derive(Clone, Copy, Debug, PartialEq, Eq)]
pub struct SwarmPlan {
    pub committee_size: usize,
    pub fullnode_count: usize,
}

/// Why a bootstrap stage failed.
#[derive(Clone, Copy, Debug, PartialEq, Eq)]
pub enum BootstrapError {
    /// The swarm could not be launched: its committee would be empty, its
    /// node count does not fit a `usize`, or a node did not report ready.
    Launch,
    /// A persisted artifact could not be written.
    Persist,
    /// The JSON-RPC front-end could not obtain a port or start.
    Bind,
    /// A persisted artifact could not be read, or a client could not be built from it.
    Config,
    /// The wallet could not pull its state from the network.
    Sync,
}

/// A plan is accepted when it has at least one validator and its total
/// node count is representable.
pub open spec fn plan_accepted(committee_size: nat, fullnode_count: nat) -> bool {
    committee_size >= 1 && committee_size + fullnode_count <= usize::MAX
}

impl SwarmPlan {
    pub open spec fn total_nodes(self) -> nat {
        (self.committee_size + self.fullnode_count) as nat
    }

    pub open spec fn wf(self) -> bool {
        plan_accepted(self.committee_size as nat, self.fullnode_count as nat)
    }

    /// Number of validators the swarm will run.
    pub fn validator_count(&self) -> (r: usize)
        ensures
            r == self.committee_size,
    {
        self.committee_size
    }

    /// Number of nodes of every kind the swarm will run.
    pub fn node_count(&self) -> (r: usize)
        requires
            self.wf(),
        ensures
            r as nat == self.total_nodes(),
    {
        self.committee_size + self.fullnode_count
    }
}

/// Builds the plan of a swarm with `committee_size` validators and
/// `fullnode_count` full nodes.
pub fn plan_swarm(committee_size: usize, fullnode_count: usize) -> (r: Result<SwarmPlan, BootstrapError>)
    ensures
        r is Ok <==> plan_accepted(committee_size as nat, fullnode_count as nat),
        r is Err ==> r == Err::<SwarmPlan, BootstrapError>(BootstrapError::Launch),
        r matches Ok(p) ==> p.committee_size == committee_size && p.fullnode_count == fullnode_count
            && p.wf(),
{
    if committee_size == 0 || committee_size > usize::MAX - fullnode_count {
        Err(BootstrapError::Launch)
    } else {
        Ok(SwarmPlan { committee_size, fullnode_count })
    }
}

/// For every committee of at least one validator and any number of full
/// nodes that fit together in a `usize`, the plan is accepted, it runs exactly
/// `committee_size` validators, and a launch is handed back only when exactly
/// `committee_size + fullnode_count` nodes are ready.
pub proof fn lemma_swarm_size(committee_size: usize, fullnode_count: usize, statuses: Seq<NodeStatus>)
    requires
        committee_size >= 1,
        committee_size + fullnode_count <= usize::MAX,
    ensures
        plan_accepted(committee_size as nat, fullnode_count as nat),
        all_ready(SwarmPlan { committee_size, fullnode_count }, statuses) ==> statuses.len()
            == committee_size + fullnode_count,
{
}

/// What a node reported after it was asked to start.
#[derive(Clone, Copy, Debug, PartialEq, Eq, Structural)]
pub enum NodeStatus {
    Ready,
    Failed,
}

/// What to do once every node of a swarm has reported.
#[derive(Debug)]
pub enum LaunchDecision {
    /// Every node is up: hand the swarm to the caller.
    Running,
    /// Some node is not up: stop the listed nodes, which did start, and fail.
    TearDown { started: Vec<usize> },
}

/// Every node that the plan asks for reported ready.
pub open spec fn all_ready(plan: SwarmPlan, statuses: Seq<NodeStatus>) -> bool {
    &&& statuses.len() == plan.total_nodes()
    &&& forall|i: int| 0 <= i < statuses.len() ==> statuses[i] == NodeStatus::Ready
}

/// Index `i` occurs in `started`.
pub open spec fn is_listed(started: Seq<usize>, i: int) -> bool {
    exists|k: int| 0 <= k < started.len() && started[k] == i
}

/// `started` lists, in increasing order, exactly the nodes that reported ready.
pub open spec fn lists_started(statuses: Seq<NodeStatus>, started: Seq<usize>) -> bool {
    &&& forall|k: int| 0 <= k < started.len() ==> (started[k] as int) < statuses.len()
        && statuses[started[k] as int] == NodeStatus::Ready
    &&& forall|k: int, l: int| 0 <= k < l < started.len() ==> started[k] < started[l]
    &&& forall|i: int| 0 <= i < statuses.len() && statuses[i] == NodeStatus::Ready
        ==> #[trigger] is_listed(started, i)
}

/// Decides the outcome of a launch from the status of each node, in the
/// order validators first, then full nodes. A launch succeeds only when every
/// planned node is ready; otherwise every node that did start is torn down.
pub fn decide_launch(plan: &SwarmPlan, statuses: &Vec<NodeStatus>) -> (r: LaunchDecision)
    requires
        plan.wf(),
    ensures
        r is Running <==> all_ready(*plan, statuses@),
        r matches LaunchDecision::TearDown { started } ==> lists_started(statuses@, started@),
{
    let mut started: Vec<usize> = Vec::new();
    let mut i: usize = 0;
    while i < statuses.len()
        invariant
            i <= statuses@.len(),
            forall|k: int| 0 <= k < started@.len() ==> (started@[k] as int) < i
                && statuses@[started@[k] as int] == NodeStatus::Ready,
            forall|k: int, l: int| 0 <= k < l < started@.len() ==> started@[k] < started@[l],
            forall|j: int| 0 <= j < i && statuses@[j] == NodeStatus::Ready
                ==> #[trigger] is_listed(started@, j),
            started@.len() <= i,
        decreases statuses@.len() - i,
    {
        if statuses[i] == NodeStatus::Ready {
            let ghost before = started@;
            started.push(i);
            proof {
                assert forall|j: int| 0 <= j <= i && statuses@[j] == NodeStatus::Ready
                    implies #[trigger] is_listed(started@, j) by {
                    if j < i {
                        assert(is_listed(before, j));
                        let k = choose|k: int| 0 <= k < before.len() && before[k] == j;
                        assert(started@[k] == j);
                    } else {
                        assert(started@[before.len() as int] == j);
                    }
                }
            }
        }
        i = i + 1;
    }
    if started.len() == plan.node_count() && started.len() == statuses.len() {
        proof {
            assert forall|j: int| 0 <= j < statuses@.len() implies statuses@[j] == NodeStatus::Ready by {
                lemma_full_prefix(started@, j);
                assert(statuses@[started@[j] as int] == NodeStatus::Ready);
            }
        }
        LaunchDecision::Running
    } else {
        proof {
            if all_ready(*plan, statuses@) {
                lemma_positions(statuses@.len() as int, started@);
            }
        }
        LaunchDecision::TearDown { started }
    }
}

/// A strictly increasing sequence of `n` indices below `n` lists every index.
proof fn lemma_full_prefix(s: Seq<usize>, j: int)
    requires
        forall|k: int| 0 <= k < s.len() ==> (s[k] as int) < s.len(),
        forall|k: int, l: int| 0 <= k < l < s.len() ==> s[k] < s[l],
        0 <= j < s.len(),
    ensures
        s[j] == j,
{
    lemma_increasing_lower(s, j);
    lemma_increasing_upper(s, j);
}

proof fn lemma_increasing_lower(s: Seq<usize>, j: int)
    requires
        forall|k: int, l: int| 0 <= k < l < s.len() ==> s[k] < s[l],
        0 <= j < s.len(),
    ensures
        s[j] >= j,
    decreases j,
{
    if j > 0 {
        lemma_increasing_lower(s, j - 1);
    }
}

proof fn lemma_increasing_upper(s: Seq<usize>, j: int)
    requires
        forall|k: int| 0 <= k < s.len() ==> (s[k] as int) < s.len(),
        forall|k: int, l: int| 0 <= k < l < s.len() ==> s[k] < s[l],
        0 <= j < s.len(),
    ensures
        s[j] + (s.len() - 1 - j) <= s.len() - 1,
    decreases s.len() - j,
{
    if j < s.len() - 1 {
        lemma_increasing_upper(s, j + 1);
    }
}

/// Indices below `n` that all occur in a strictly increasing list of indices
/// below `n` take at least `n` entries.
proof fn lemma_positions(n: int, started: Seq<usize>)
    requires
        forall|k: int| 0 <= k < started.len() ==> (started[k] as int) < n,
        forall|k: int, l: int| 0 <= k < l < started.len() ==> started[k] < started[l],
        forall|i: int| 0 <= i < n ==> #[trigger] is_listed(started, i),
        n >= 0,
    ensures
        started.len() >= n,
    decreases n,
{
    if n > 0 {
        assert(is_listed(started, n - 1));
        let k = choose|k: int| 0 <= k < started.len() && started[k] == n - 1;
        let prefix = started.subrange(0, k);
        assert forall|i: int| 0 <= i < n - 1 implies #[trigger] is_listed(prefix, i) by {
            assert(is_listed(started, i));
            let m = choose|m: int| 0 <= m < started.len() && started[m] == i;
            if m >= k {
                if m > k {
                    assert(started[k] < started[m]);
                }
            }
            assert(prefix[m] == i);
        }
        lemma_positions(n - 1, prefix);
    }
}

} // verus!
