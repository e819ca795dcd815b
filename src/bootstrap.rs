use vstd::prelude::*;
use crate::rpc::{LocalAddr, rpc_url, rpc_url_of};
use crate::swarm::{BootstrapError, plan_swarm, plan_accepted};

verus! {

/// Which entry point a bootstrap serves.
#[derive(Clone, Copy, Debug, PartialEq, Eq)]
pub enum BootstrapKind {
    /// Launch and persist: a swarm with its wallet configuration.
    Network,
    /// As `Network`, then sync the wallet of the first account.
    NetworkAndWallet,
    /// As `Network`, then front it with JSON-RPC and point the wallet there.
    RpcNetwork,
}

/// One stage of a bootstrap.
#[derive(Clone, Copy, Debug, PartialEq, Eq, Structural)]
pub enum Stage {
    Launch,
    Persist,
    StartRpc,
    Rewire,
    ConnectClients,
    SyncWallet,
}

/// The stages of each kind of bootstrap, in the order they run.
pub open spec fn stages(kind: BootstrapKind) -> Seq<Stage> {
    match kind {
        BootstrapKind::Network => seq![Stage::Launch, Stage::Persist],
        BootstrapKind::NetworkAndWallet => seq![Stage::Launch, Stage::Persist, Stage::SyncWallet],
        BootstrapKind::RpcNetwork => seq![
            Stage::Launch,
            Stage::Persist,
            Stage::StartRpc,
            Stage::Rewire,
            Stage::ConnectClients,
        ],
    }
}

/// The errors a stage can fail with. Starting the front-end fails to bind,
/// or on a gateway configuration it cannot read; the rewire fails to read
/// the wallet configuration, or to write it back; the sync fails to open the
/// wallet, or to pull its state.
pub open spec fn stage_may_fail_with(stage: Stage, e: BootstrapError) -> bool {
    match stage {
        Stage::Launch => e == BootstrapError::Launch,
        Stage::Persist => e == BootstrapError::Persist,
        Stage::StartRpc => e == BootstrapError::Bind || e == BootstrapError::Config,
        Stage::Rewire => e == BootstrapError::Config || e == BootstrapError::Persist,
        Stage::ConnectClients => e == BootstrapError::Config,
        Stage::SyncWallet => e == BootstrapError::Config || e == BootstrapError::Sync,
    }
}

/// What the driver of a bootstrap must do next.
#[derive(Clone, Copy, Debug, PartialEq, Eq)]
pub enum Action {
    Run(Stage),
    /// Every stage succeeded: hand the running network to the caller.
    Finish,
    /// Write the wallet configuration back with its embedded gateway, so that
    /// it names no front-end that is about to stop.
    RestoreEmbedded,
    StopRpcServer,
    StopSwarm,
    /// Report this error to the caller; nothing is left running.
    Fail(BootstrapError),
}

/// How the stage in progress ended.
#[derive(Clone, Copy, Debug, PartialEq, Eq)]
pub enum StageOutcome {
    Done,
    /// The JSON-RPC front-end is listening at this address.
    Bound(LocalAddr),
    Failed(BootstrapError),
}

/// Whether a bootstrap is still running its stages, handed its network to
/// the caller, or failed.
#[derive(Clone, Copy, Debug, PartialEq, Eq)]
pub enum Status {
    Active,
    Finished,
    Failed,
}

/// The progress of one bootstrap: which stage runs, and what is up.
#[derive(Debug)]
pub struct Bootstrap {
    pub kind: BootstrapKind,
    /// Index in `stages(kind)` of the stage in progress.
    pub stage: usize,
    pub status: Status,
    pub swarm_up: bool,
    pub rpc_up: bool,
    /// The persisted wallet configuration names the front-end.
    pub wallet_rewired: bool,
    /// Where the JSON-RPC front-end is reached, once it is listening.
    pub rpc_url: Option<String>,
}

/// The actions that undo what a bootstrap set up: the wallet configuration
/// is pointed back at the embedded gateway, then the front-end stops, then
/// the swarm.
pub open spec fn teardown(wallet_rewired: bool, rpc_up: bool, swarm_up: bool) -> Seq<Action> {
    (if wallet_rewired { seq![Action::RestoreEmbedded] } else { Seq::empty() })
        + (if rpc_up { seq![Action::StopRpcServer] } else { Seq::empty() })
        + (if swarm_up { seq![Action::StopSwarm] } else { Seq::empty() })
}

/// A failed bootstrap undoes everything it set up and nothing else: a
/// rewired wallet is pointed back at the embedded gateway before the
/// front-end stops, and the front-end stops before the swarm.
pub proof fn lemma_teardown_stops_all(wallet_rewired: bool, rpc_up: bool, swarm_up: bool)
    ensures
        wallet_rewired <==> teardown(wallet_rewired, rpc_up, swarm_up).contains(Action::RestoreEmbedded),
        rpc_up <==> teardown(wallet_rewired, rpc_up, swarm_up).contains(Action::StopRpcServer),
        swarm_up <==> teardown(wallet_rewired, rpc_up, swarm_up).contains(Action::StopSwarm),
        wallet_rewired && rpc_up && swarm_up ==> teardown(wallet_rewired, rpc_up, swarm_up) == seq![
            Action::RestoreEmbedded,
            Action::StopRpcServer,
            Action::StopSwarm,
        ],
        !wallet_rewired && rpc_up && swarm_up ==> teardown(wallet_rewired, rpc_up, swarm_up)
            == seq![Action::StopRpcServer, Action::StopSwarm],
{
    let t = teardown(wallet_rewired, rpc_up, swarm_up);
    let a: Seq<Action> = if wallet_rewired { seq![Action::RestoreEmbedded] } else { Seq::empty() };
    let b: Seq<Action> = if rpc_up { seq![Action::StopRpcServer] } else { Seq::empty() };
    let c: Seq<Action> = if swarm_up { seq![Action::StopSwarm] } else { Seq::empty() };
    assert(t == a + b + c);
    if wallet_rewired {
        assert(t[0] == Action::RestoreEmbedded);
    }
    if rpc_up {
        assert(t[a.len() as int] == Action::StopRpcServer);
    }
    if swarm_up {
        assert(t[t.len() - 1] == Action::StopSwarm);
    }
    assert forall|x: Action| t.contains(x) implies (x == Action::RestoreEmbedded && wallet_rewired) || (x
        == Action::StopRpcServer && rpc_up) || (x == Action::StopSwarm && swarm_up) by {
        let i = choose|i: int| 0 <= i < t.len() && t[i] == x;
        if i < a.len() {
            assert(t[i] == a[i]);
        } else if i < a.len() + b.len() {
            assert(t[i] == b[i - a.len()]);
        } else {
            assert(t[i] == c[i - a.len() - b.len()]);
        }
    }
    assert(wallet_rewired && rpc_up && swarm_up ==> t =~= seq![
        Action::RestoreEmbedded,
        Action::StopRpcServer,
        Action::StopSwarm,
    ]);
    assert(!wallet_rewired && rpc_up && swarm_up ==> t =~= seq![Action::StopRpcServer, Action::StopSwarm]);
}

impl Bootstrap {
    pub open spec fn current(self) -> Stage {
        stages(self.kind)[self.stage as int]
    }

    /// The swarm is up once launch succeeded, the front-end once it bound, and
    /// its URL is known exactly while it is up; nothing is up after a failure.
    pub open spec fn wf(self) -> bool {
        &&& self.stage < stages(self.kind).len()
        &&& self.rpc_up == self.rpc_url is Some
        &&& match self.status {
            Status::Active => {
                &&& self.swarm_up == (self.stage > 0)
                &&& self.rpc_up == (self.kind == BootstrapKind::RpcNetwork && self.stage > 2)
                &&& self.wallet_rewired == (self.kind == BootstrapKind::RpcNetwork && self.stage > 3)
            },
            Status::Finished => {
                &&& self.stage == stages(self.kind).len() - 1
                &&& self.swarm_up
                &&& self.rpc_up == (self.kind == BootstrapKind::RpcNetwork)
                &&& self.wallet_rewired == (self.kind == BootstrapKind::RpcNetwork)
            },
            Status::Failed => !self.swarm_up && !self.rpc_up && !self.wallet_rewired,
        }
    }

    /// What the driver reports fits the stage in progress: an address exactly
    /// when the front-end was started, and only an error that stage can have.
    pub open spec fn fits(self, outcome: StageOutcome) -> bool {
        &&& outcome is Bound ==> self.current() == Stage::StartRpc
        &&& self.current() == Stage::StartRpc ==> !(outcome is Done)
        &&& outcome matches StageOutcome::Failed(e) ==> stage_may_fail_with(self.current(), e)
    }
}

fn stage_count(kind: BootstrapKind) -> (r: usize)
    ensures
        r as nat == stages(kind).len(),
{
    match kind {
        BootstrapKind::Network => 2,
        BootstrapKind::NetworkAndWallet => 3,
        BootstrapKind::RpcNetwork => 5,
    }
}

fn stage_at(kind: BootstrapKind, i: usize) -> (r: Stage)
    requires
        i < stages(kind).len(),
    ensures
        r == stages(kind)[i as int],
{
    match kind {
        BootstrapKind::Network => if i == 0 { Stage::Launch } else { Stage::Persist },
        BootstrapKind::NetworkAndWallet => if i == 0 {
            Stage::Launch
        } else if i == 1 {
            Stage::Persist
        } else {
            Stage::SyncWallet
        },
        BootstrapKind::RpcNetwork => if i == 0 {
            Stage::Launch
        } else if i == 1 {
            Stage::Persist
        } else if i == 2 {
            Stage::StartRpc
        } else if i == 3 {
            Stage::Rewire
        } else {
            Stage::ConnectClients
        },
    }
}

impl Bootstrap {
    /// Starts a bootstrap of `kind` over a swarm of `committee_size` validators
    /// and `fullnode_count` full nodes. A plan that cannot be launched (an
    /// empty committee) fails as a launch does, before anything runs;
    /// otherwise the first action launches it.
    pub fn start(kind: BootstrapKind, committee_size: usize, fullnode_count: usize) -> (r: (
        Bootstrap,
        Vec<Action>,
    ))
        ensures
            r.0.wf(),
            r.0.kind == kind,
            plan_accepted(committee_size as nat, fullnode_count as nat) ==> r.0.status
                == Status::Active && r.0.stage == 0 && r.1@ == seq![Action::Run(Stage::Launch)],
            !plan_accepted(committee_size as nat, fullnode_count as nat) ==> r.0.status
                == Status::Failed && r.1@ == seq![Action::Fail(BootstrapError::Launch)],
    {
        let mut actions: Vec<Action> = Vec::new();
        match plan_swarm(committee_size, fullnode_count) {
            Ok(_) => {
                actions.push(Action::Run(Stage::Launch));
                (
                    Bootstrap {
                        kind,
                        stage: 0,
                        status: Status::Active,
                        swarm_up: false,
                        rpc_up: false,
                        wallet_rewired: false,
                        rpc_url: None,
                    },
                    actions,
                )
            },
            Err(e) => {
                actions.push(Action::Fail(e));
                (
                    Bootstrap {
                        kind,
                        stage: 0,
                        status: Status::Failed,
                        swarm_up: false,
                        rpc_up: false,
                        wallet_rewired: false,
                        rpc_url: None,
                    },
                    actions,
                )
            },
        }
    }

    /// Takes the outcome of the stage in progress and returns what to do next.
    /// On success the next stage runs, or the bootstrap finishes after the
    /// last one. On failure what was set up is undone (the wallet pointed back
    /// at its embedded gateway, then the front-end, then the swarm stopped)
    /// and the error the driver gave is reported.
    pub fn step(&mut self, outcome: StageOutcome) -> (r: Vec<Action>)
        requires
            old(self).wf(),
            old(self).status == Status::Active,
            old(self).fits(outcome),
        ensures
            final(self).wf(),
            final(self).kind == old(self).kind,
            outcome matches StageOutcome::Failed(e) ==> {
                &&& final(self).status == Status::Failed
                &&& !final(self).swarm_up && !final(self).rpc_up && !final(self).wallet_rewired
                &&& r@ == teardown(old(self).wallet_rewired, old(self).rpc_up, old(self).swarm_up).push(
                    Action::Fail(e),
                )
            },
            !(outcome is Failed) && old(self).stage + 1 == stages(old(self).kind).len() ==> {
                &&& final(self).status == Status::Finished
                &&& final(self).stage == old(self).stage
                &&& r@ == seq![Action::Finish]
            },
            !(outcome is Failed) && old(self).stage + 1 < stages(old(self).kind).len() ==> {
                &&& final(self).status == Status::Active
                &&& final(self).stage == old(self).stage + 1
                &&& r@ == seq![Action::Run(final(self).current())]
            },
            outcome matches StageOutcome::Bound(addr) ==> final(self).rpc_url matches Some(u)
                && u@ == rpc_url_of(addr),
            !(outcome is Bound) && !(outcome is Failed) ==> final(self).rpc_url == old(
                self,
            ).rpc_url,
    {
        let mut actions: Vec<Action> = Vec::new();
        let current = stage_at(self.kind, self.stage);
        match outcome {
            StageOutcome::Failed(e) => {
                if self.wallet_rewired {
                    actions.push(Action::RestoreEmbedded);
                }
                if self.rpc_up {
                    actions.push(Action::StopRpcServer);
                }
                if self.swarm_up {
                    actions.push(Action::StopSwarm);
                }
                actions.push(Action::Fail(e));
                self.wallet_rewired = false;
                self.rpc_up = false;
                self.swarm_up = false;
                self.rpc_url = None;
                self.status = Status::Failed;
                proof {
                    assert(actions@ =~= teardown(
                        old(self).wallet_rewired,
                        old(self).rpc_up,
                        old(self).swarm_up,
                    ).push(Action::Fail(e)));
                }
            },
            _ => {
                if let StageOutcome::Bound(addr) = outcome {
                    self.rpc_url = Some(rpc_url(&addr));
                    self.rpc_up = true;
                }
                if current == Stage::Launch {
                    self.swarm_up = true;
                }
                if current == Stage::Rewire {
                    self.wallet_rewired = true;
                }
                if self.stage + 1 == stage_count(self.kind) {
                    self.status = Status::Finished;
                    actions.push(Action::Finish);
                } else {
                    self.stage = self.stage + 1;
                    actions.push(Action::Run(stage_at(self.kind, self.stage)));
                }
            },
        }
        actions
    }
}

} // verus!
