//! The protocol that a client node follows, as a state machine.
//!
//! The node joins the session, waits until every participant has joined, takes
//! the aggregated public key, sends its bootstrapping key share, waits until
//! every share is aggregated, sends its encrypted input, waits for the result,
//! computes its decryption share, collects one decryption share from each peer
//! and decrypts the result. The node performs each action (network requests,
//! encryption, sleeping) and reports what came of it as an event.
use crate::entities::session::SessionStatus;
use crate::text::{byte_lists_view, copy_byte_lists, copy_bytes};
use crate::utils::{binary_of, u64_to_binary};
use vstd::prelude::*;

verus! {

/// The value that a client node contributes to the computation.
pub open spec fn secret_value() -> u64 {
    6
}

/// The bits of the value that the node encrypts and sends: the 64 bits of
/// `secret_value`, least significant first.
pub fn secret_input() -> (r: Vec<bool>)
    ensures
        r@ == binary_of(secret_value() as nat, 64),
{
    proof {
        vstd::arithmetic::power2::lemma2_to64_rest();
    }
    u64_to_binary::<64>(6)
}

/// Where a client node is in the protocol.
#[derive(Debug, Clone, Copy, PartialEq, Eq, Structural)]
pub enum FlowStep {
    /// Join the session with the node's key shares.
    Join,
    /// Poll the session until its status is `awaited`.
    AwaitStatus { awaited: SessionStatus },
    /// Take the aggregated public key of the session.
    UpdatePk,
    /// Send the bootstrapping key share.
    Bootstrap,
    /// Encrypt and send the node's input.
    SendSecretData,
    /// Fetch the encrypted result and compute the node's decryption share.
    FetchEncryptedResult,
    /// Collect one decryption share from each peer.
    CollectShares,
    /// Decrypt the result with every decryption share.
    Decrypt,
    /// The protocol is over.
    Finished,
}

/// What a client node does next.
#[derive(Debug, Clone, Copy, PartialEq, Eq, Structural)]
pub enum FlowAction {
    JoinSession,
    PollStatus,
    /// Sleep one second, then poll the status again.
    WaitThenPollStatus,
    UpdatePk,
    SendBootstrapKey,
    SendSecretData,
    FetchEncryptedResult,
    /// Ask the peer at this position for its decryption share.
    RequestShare(usize),
    /// Sleep one second, then ask the peer at this position again.
    WaitThenRequestShare(usize),
    /// Decrypt the result with the collected shares.
    DecryptResult,
    Stop,
}

/// What came of the node's last action.
pub enum FlowEvent {
    /// The action was carried out.
    Completed,
    /// A poll observed this status.
    StatusObserved(SessionStatus),
    /// A peer answered with this share, or `None` when the request failed.
    ShareReceived(Option<Vec<u8>>),
}

pub enum FlowEventView {
    Completed,
    StatusObserved(SessionStatus),
    ShareReceived(Option<Seq<u8>>),
}

impl View for FlowEvent {
    type V = FlowEventView;

    open spec fn view(&self) -> FlowEventView {
        match self {
            FlowEvent::Completed => FlowEventView::Completed,
            FlowEvent::StatusObserved(s) => FlowEventView::StatusObserved(*s),
            FlowEvent::ShareReceived(Some(v)) => FlowEventView::ShareReceived(Some(v@)),
            FlowEvent::ShareReceived(None) => FlowEventView::ShareReceived(None),
        }
    }
}

/// The state of a client node: where it is, how many peers it collects
/// decryption shares from, and the shares collected so far.
pub struct ClientFlow {
    pub step: FlowStep,
    pub peer_count: usize,
    pub shares: Vec<Vec<u8>>,
}

pub struct ClientFlowView {
    pub step: FlowStep,
    pub peer_count: usize,
    pub shares: Seq<Seq<u8>>,
}

impl View for ClientFlow {
    type V = ClientFlowView;

    open spec fn view(&self) -> ClientFlowView {
        ClientFlowView { step: self.step, peer_count: self.peer_count, shares: byte_lists_view(self.shares@) }
    }
}

/// The action that starts a step.
pub open spec fn step_action(f: ClientFlowView) -> FlowAction {
    match f.step {
        FlowStep::Join => FlowAction::JoinSession,
        FlowStep::AwaitStatus { .. } => FlowAction::PollStatus,
        FlowStep::UpdatePk => FlowAction::UpdatePk,
        FlowStep::Bootstrap => FlowAction::SendBootstrapKey,
        FlowStep::SendSecretData => FlowAction::SendSecretData,
        FlowStep::FetchEncryptedResult => FlowAction::FetchEncryptedResult,
        FlowStep::CollectShares => if f.shares.len() < f.peer_count {
            FlowAction::RequestShare(f.shares.len() as usize)
        } else {
            FlowAction::DecryptResult
        },
        FlowStep::Decrypt => FlowAction::DecryptResult,
        FlowStep::Finished => FlowAction::Stop,
    }
}

/// The step that follows a completed step.
pub open spec fn step_after(s: FlowStep) -> FlowStep {
    match s {
        FlowStep::Join => FlowStep::AwaitStatus { awaited: SessionStatus::WaitingForBootstrap },
        FlowStep::AwaitStatus { awaited } => match awaited {
            SessionStatus::WaitingForBootstrap => FlowStep::UpdatePk,
            SessionStatus::WaitingForArgument => FlowStep::SendSecretData,
            SessionStatus::Done => FlowStep::FetchEncryptedResult,
            SessionStatus::WaitingForClients => FlowStep::Join,
        },
        FlowStep::UpdatePk => FlowStep::Bootstrap,
        FlowStep::Bootstrap => FlowStep::AwaitStatus { awaited: SessionStatus::WaitingForArgument },
        FlowStep::SendSecretData => FlowStep::AwaitStatus { awaited: SessionStatus::Done },
        FlowStep::FetchEncryptedResult => FlowStep::CollectShares,
        FlowStep::CollectShares => FlowStep::Decrypt,
        FlowStep::Decrypt => FlowStep::Finished,
        FlowStep::Finished => FlowStep::Finished,
    }
}

/// The flow entering step `s`, with the action that starts it.
pub open spec fn enter(f: ClientFlowView, s: FlowStep) -> (ClientFlowView, FlowAction) {
    let g = ClientFlowView { step: s, ..f };
    (g, step_action(g))
}

/// How the flow answers an event: a poll that observes the awaited status, or
/// the completion of any other step, moves to the next step; a poll that does
/// not observe it polls again after a second; a non-empty share from a peer is
/// kept and the next peer is asked, while a failed request or an empty share
/// is retried after a second. Any other event leaves the flow as it is and
/// repeats the step's action.
pub open spec fn flow_next(f: ClientFlowView, e: FlowEventView) -> (ClientFlowView, FlowAction) {
    match (f.step, e) {
        (FlowStep::AwaitStatus { awaited }, FlowEventView::StatusObserved(s)) => if s == awaited {
            enter(f, step_after(f.step))
        } else {
            (f, FlowAction::WaitThenPollStatus)
        },
        (FlowStep::CollectShares, FlowEventView::ShareReceived(answer)) => if f.shares.len()
            < f.peer_count {
            match answer {
                Some(share) => if share.len() > 0 {
                    let g = ClientFlowView { shares: f.shares.push(share), ..f };
                    if g.shares.len() < g.peer_count {
                        (g, FlowAction::RequestShare(g.shares.len() as usize))
                    } else {
                        enter(g, FlowStep::Decrypt)
                    }
                } else {
                    (f, FlowAction::WaitThenRequestShare(f.shares.len() as usize))
                },
                None => (f, FlowAction::WaitThenRequestShare(f.shares.len() as usize)),
            }
        } else {
            (f, step_action(f))
        },
        (FlowStep::CollectShares, FlowEventView::Completed) => if f.shares.len() >= f.peer_count {
            enter(f, FlowStep::Decrypt)
        } else {
            (f, step_action(f))
        },
        (FlowStep::AwaitStatus { .. }, _) => (f, step_action(f)),
        (FlowStep::Finished, _) => (f, FlowAction::Stop),
        (_, FlowEventView::Completed) => enter(f, step_after(f.step)),
        (_, _) => (f, step_action(f)),
    }
}

/// The position of a step in the protocol.
pub open spec fn step_rank(s: FlowStep) -> int {
    match s {
        FlowStep::Join => 0,
        FlowStep::AwaitStatus { awaited } => match awaited {
            SessionStatus::WaitingForBootstrap => 1,
            SessionStatus::WaitingForArgument => 4,
            SessionStatus::Done => 6,
            SessionStatus::WaitingForClients => 0,
        },
        FlowStep::UpdatePk => 2,
        FlowStep::Bootstrap => 3,
        FlowStep::SendSecretData => 5,
        FlowStep::FetchEncryptedResult => 7,
        FlowStep::CollectShares => 8,
        FlowStep::Decrypt => 9,
        FlowStep::Finished => 10,
    }
}

/// The states that the flow can be in: it never waits for a session still
/// waiting for clients, it holds at most one share per peer, and every share it
/// holds is non-empty.
pub open spec fn flow_inv(f: ClientFlowView) -> bool {
    &&& f.step != (FlowStep::AwaitStatus { awaited: SessionStatus::WaitingForClients })
    &&& f.shares.len() <= f.peer_count
    &&& forall|i: int| 0 <= i < f.shares.len() ==> #[trigger] f.shares[i].len() > 0
    &&& (f.step == FlowStep::Decrypt || f.step == FlowStep::Finished) ==> f.shares.len()
        == f.peer_count
}

impl ClientFlow {
    /// A node about to join the session, collecting shares from `peer_count`
    /// peers.
    pub fn new(peer_count: usize) -> (r: (ClientFlow, FlowAction))
        ensures
            r.0@ == (ClientFlowView { step: FlowStep::Join, peer_count, shares: Seq::empty() }),
            r.1 == FlowAction::JoinSession,
            flow_inv(r.0@),
    {
        let f = ClientFlow { step: FlowStep::Join, peer_count, shares: Vec::new() };
        assert(byte_lists_view(f.shares@) =~= Seq::empty());
        (f, FlowAction::JoinSession)
    }

    /// The decryption shares to decrypt the result with: those collected from
    /// the peers, in the order received, then the node's own share `own`.
    pub fn decryption_shares(&self, own: &Vec<u8>) -> (r: Vec<Vec<u8>>)
        ensures
            byte_lists_view(r@) == self@.shares.push(own@),
    {
        let mut r = copy_byte_lists(&self.shares);
        let ghost before = r@;
        r.push(copy_bytes(own));
        assert(byte_lists_view(r@) =~= byte_lists_view(before).push(own@)) by {
            assert forall|i: int| 0 <= i < before.len() implies r@[i] == before[i] by {}
        }
        r
    }

    /// The action that starts the current step.
    pub fn current_action(&self) -> (r: FlowAction)
        ensures
            r == step_action(self@),
    {
        match self.step {
            FlowStep::Join => FlowAction::JoinSession,
            FlowStep::AwaitStatus { .. } => FlowAction::PollStatus,
            FlowStep::UpdatePk => FlowAction::UpdatePk,
            FlowStep::Bootstrap => FlowAction::SendBootstrapKey,
            FlowStep::SendSecretData => FlowAction::SendSecretData,
            FlowStep::FetchEncryptedResult => FlowAction::FetchEncryptedResult,
            FlowStep::CollectShares => if self.shares.len() < self.peer_count {
                FlowAction::RequestShare(self.shares.len())
            } else {
                FlowAction::DecryptResult
            },
            FlowStep::Decrypt => FlowAction::DecryptResult,
            FlowStep::Finished => FlowAction::Stop,
        }
    }

    fn next_step(s: FlowStep) -> (r: FlowStep)
        ensures
            r == step_after(s),
    {
        match s {
            FlowStep::Join => FlowStep::AwaitStatus { awaited: SessionStatus::WaitingForBootstrap },
            FlowStep::AwaitStatus { awaited } => match awaited {
                SessionStatus::WaitingForBootstrap => FlowStep::UpdatePk,
                SessionStatus::WaitingForArgument => FlowStep::SendSecretData,
                SessionStatus::Done => FlowStep::FetchEncryptedResult,
                SessionStatus::WaitingForClients => FlowStep::Join,
            },
            FlowStep::UpdatePk => FlowStep::Bootstrap,
            FlowStep::Bootstrap => FlowStep::AwaitStatus { awaited: SessionStatus::WaitingForArgument },
            FlowStep::SendSecretData => FlowStep::AwaitStatus { awaited: SessionStatus::Done },
            FlowStep::FetchEncryptedResult => FlowStep::CollectShares,
            FlowStep::CollectShares => FlowStep::Decrypt,
            FlowStep::Decrypt => FlowStep::Finished,
            FlowStep::Finished => FlowStep::Finished,
        }
    }

    /// Moves to step `s` and returns the action that starts it.
    fn enter_step(&mut self, s: FlowStep) -> (r: FlowAction)
        ensures
            (final(self)@, r) == enter(old(self)@, s),
    {
        self.step = s;
        self.current_action()
    }

    /// Takes in what came of the last action and returns the next action.
    pub fn step(&mut self, event: FlowEvent) -> (r: FlowAction)
        ensures
            (final(self)@, r) == flow_next(old(self)@, event@),
            flow_inv(old(self)@) ==> flow_inv(final(self)@),
            old(self)@.step == FlowStep::CollectShares && old(self)@.shares.len()
                < old(self)@.peer_count ==> (event@ matches FlowEventView::ShareReceived(Some(share))
                ==> (share.len() > 0 ==> final(self)@.shares == old(self)@.shares.push(share))),
    {
        proof {
            if flow_inv(self@) {
                lemma_flow_inv_preserved(self@, event@);
            }
        }
        match self.step {
            FlowStep::AwaitStatus { awaited } => match event {
                FlowEvent::StatusObserved(s) => {
                    if s == awaited {
                        let next = Self::next_step(self.step);
                        self.enter_step(next)
                    } else {
                        FlowAction::WaitThenPollStatus
                    }
                },
                _ => self.current_action(),
            },
            FlowStep::CollectShares => match event {
                FlowEvent::ShareReceived(answer) => {
                    if self.shares.len() < self.peer_count {
                        match answer {
                            Some(share) => {
                                if share.len() > 0 {
                                    let ghost before = self.shares@;
                                    self.shares.push(share);
                                    assert(byte_lists_view(self.shares@) =~= byte_lists_view(
                                        before,
                                    ).push(self.shares@[before.len() as int]@));
                                    if self.shares.len() < self.peer_count {
                                        FlowAction::RequestShare(self.shares.len())
                                    } else {
                                        self.enter_step(FlowStep::Decrypt)
                                    }
                                } else {
                                    FlowAction::WaitThenRequestShare(self.shares.len())
                                }
                            },
                            None => FlowAction::WaitThenRequestShare(self.shares.len()),
                        }
                    } else {
                        self.current_action()
                    }
                },
                FlowEvent::Completed => {
                    if self.shares.len() >= self.peer_count {
                        self.enter_step(FlowStep::Decrypt)
                    } else {
                        self.current_action()
                    }
                },
                _ => self.current_action(),
            },
            FlowStep::Finished => FlowAction::Stop,
            _ => match event {
                FlowEvent::Completed => {
                    let next = Self::next_step(self.step);
                    self.enter_step(next)
                },
                _ => self.current_action(),
            },
        }
    }
}

/// A poll leaves a waiting step only when it observes the awaited status.
pub proof fn lemma_wait_leaves_only_on_awaited_status(f: ClientFlowView, e: FlowEventView, awaited: SessionStatus)
    requires
        f.step == (FlowStep::AwaitStatus { awaited }),
        flow_next(f, e).0.step != f.step,
    ensures
        e == FlowEventView::StatusObserved(awaited),
{
}

/// Every event keeps the flow where it is or moves it one step forward.
pub proof fn lemma_flow_moves_forward(f: ClientFlowView, e: FlowEventView)
    requires
        flow_inv(f),
    ensures
        step_rank(flow_next(f, e).0.step) == step_rank(f.step) || step_rank(flow_next(f, e).0.step)
            == step_rank(f.step) + 1,
{
}

/// The flow stays within its states: whatever happens, it never waits for a
/// session still waiting for clients, keeps at most one non-empty share per
/// peer, and decrypts only with a share from every peer.
pub proof fn lemma_flow_inv_preserved(f: ClientFlowView, e: FlowEventView)
    requires
        flow_inv(f),
    ensures
        flow_inv(flow_next(f, e).0),
        flow_next(f, e).0.peer_count == f.peer_count,
{
    let g = flow_next(f, e).0;
    if f.step == FlowStep::CollectShares {
        if let FlowEventView::ShareReceived(Some(share)) = e {
            if f.shares.len() < f.peer_count && share.len() > 0 {
                assert forall|i: int| 0 <= i < g.shares.len() implies #[trigger] g.shares[i].len() > 0 by {
                    if i < f.shares.len() {
                        assert(g.shares[i] == f.shares[i]);
                    }
                }
            }
        }
    }
}

/// While shares are still missing, a non-empty decryption share from a peer is
/// kept after those already collected, whatever its length; the next peer is
/// then asked, or, with a share from every peer, the result is decrypted.
pub proof fn lemma_share_kept(f: ClientFlowView, share: Seq<u8>)
    requires
        f.step == FlowStep::CollectShares,
        f.shares.len() < f.peer_count,
        share.len() > 0,
    ensures
        flow_next(f, FlowEventView::ShareReceived(Some(share))).0.shares == f.shares.push(share),
        flow_next(f, FlowEventView::ShareReceived(Some(share))).0.peer_count == f.peer_count,
        f.shares.len() + 1 < f.peer_count ==> {
            &&& flow_next(f, FlowEventView::ShareReceived(Some(share))).0.step == FlowStep::CollectShares
            &&& flow_next(f, FlowEventView::ShareReceived(Some(share))).1 == FlowAction::RequestShare(
                (f.shares.len() + 1) as usize,
            )
        },
        f.shares.len() + 1 == f.peer_count ==> {
            &&& flow_next(f, FlowEventView::ShareReceived(Some(share))).0.step == FlowStep::Decrypt
            &&& flow_next(f, FlowEventView::ShareReceived(Some(share))).1 == FlowAction::DecryptResult
        },
{
}

/// While shares are still missing, a failed request or an empty share leaves
/// the flow as it is and asks the same peer again after a second.
pub proof fn lemma_missing_share_retried(f: ClientFlowView, answer: Option<Seq<u8>>)
    requires
        f.step == FlowStep::CollectShares,
        f.shares.len() < f.peer_count,
        answer matches Some(share) ==> share.len() == 0,
    ensures
        flow_next(f, FlowEventView::ShareReceived(answer)).0 == f,
        flow_next(f, FlowEventView::ShareReceived(answer)).1 == FlowAction::WaitThenRequestShare(
            f.shares.len() as usize,
        ),
{
}

/// The protocol runs in this order: join; wait until the session waits for
/// bootstrapping key shares; take the public key; send the bootstrapping key
/// share; wait until the session waits for inputs; send the input; wait until
/// the session is done; fetch the result; collect the peers' shares; decrypt;
/// stop. Each step starts with its own action.
pub proof fn lemma_protocol_order(f: ClientFlowView)
    ensures
        f.step == FlowStep::Join ==> flow_next(f, FlowEventView::Completed) == ((ClientFlowView {
            step: FlowStep::AwaitStatus { awaited: SessionStatus::WaitingForBootstrap },
            ..f
        }), FlowAction::PollStatus),
        f.step == (FlowStep::AwaitStatus { awaited: SessionStatus::WaitingForBootstrap }) ==> flow_next(
            f,
            FlowEventView::StatusObserved(SessionStatus::WaitingForBootstrap),
        ) == ((ClientFlowView { step: FlowStep::UpdatePk, ..f }), FlowAction::UpdatePk),
        f.step == FlowStep::UpdatePk ==> flow_next(f, FlowEventView::Completed) == ((ClientFlowView {
            step: FlowStep::Bootstrap,
            ..f
        }), FlowAction::SendBootstrapKey),
        f.step == FlowStep::Bootstrap ==> flow_next(f, FlowEventView::Completed) == ((ClientFlowView {
            step: FlowStep::AwaitStatus { awaited: SessionStatus::WaitingForArgument },
            ..f
        }), FlowAction::PollStatus),
        f.step == (FlowStep::AwaitStatus { awaited: SessionStatus::WaitingForArgument }) ==> flow_next(
            f,
            FlowEventView::StatusObserved(SessionStatus::WaitingForArgument),
        ) == ((ClientFlowView { step: FlowStep::SendSecretData, ..f }), FlowAction::SendSecretData),
        f.step == FlowStep::SendSecretData ==> flow_next(f, FlowEventView::Completed) == ((
        ClientFlowView { step: FlowStep::AwaitStatus { awaited: SessionStatus::Done }, ..f }),
        FlowAction::PollStatus),
        f.step == (FlowStep::AwaitStatus { awaited: SessionStatus::Done }) ==> flow_next(
            f,
            FlowEventView::StatusObserved(SessionStatus::Done),
        ) == ((ClientFlowView { step: FlowStep::FetchEncryptedResult, ..f }),
        FlowAction::FetchEncryptedResult),
        f.step == FlowStep::FetchEncryptedResult && f.shares.len() < f.peer_count ==> flow_next(
            f,
            FlowEventView::Completed,
        ) == ((ClientFlowView { step: FlowStep::CollectShares, ..f }), FlowAction::RequestShare(
            f.shares.len() as usize,
        )),
        f.step == FlowStep::FetchEncryptedResult && f.shares.len() >= f.peer_count ==> flow_next(
            f,
            FlowEventView::Completed,
        ) == ((ClientFlowView { step: FlowStep::CollectShares, ..f }), FlowAction::DecryptResult),
        f.step == FlowStep::Decrypt ==> flow_next(f, FlowEventView::Completed) == ((ClientFlowView {
            step: FlowStep::Finished,
            ..f
        }), FlowAction::Stop),
        f.step == FlowStep::Finished ==> flow_next(f, FlowEventView::Completed).1 == FlowAction::Stop,
{
}

} // verus!
