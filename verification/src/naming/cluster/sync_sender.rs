//! The sender that forwards naming requests to one peer.
//!
//! A sender never touches the network itself. It says what to do next
//! (transmit, pause, finish) and is told what came of it. A transport
//! failure is retried once after a short pause, except for a ping, which
//! is the failure detector and must report the first failure as it is.
use crate::common::constant::{GRPC_HEAD_KEY_CLUSTER_ID, GRPC_HEAD_KEY_SUB_NAME};
use crate::common::keyed::Keyed;
use crate::common::string_map::{copy_string_map, lemma_text_map_insert, text_map, StringMap};
use crate::common::text::{decimal, to_decimal};
use crate::grpc::handler::NAMING_ROUTE_REQUEST;
use crate::grpc::{Payload, PayloadUtils, PayloadView};
use crate::naming::cluster::model::{
    NamingRouterResponse, RouteKind, SyncSenderRequest, SyncSenderResponse, SyncSenderSetCmd,
};
use crate::naming::model::NamingError;
use std::sync::Arc;
use vstd::prelude::*;
use vstd::string::*;

verus! {

/// How long a sender waits before its second attempt, in milliseconds.
pub const RETRY_PAUSE_MILLIS: u64 = 100;

/// How long one attempt may take, in milliseconds.
pub const REQUEST_TIMEOUT_MILLIS: u64 = 3000;

/// What a sender reports when it was given no way to reach its peer.
pub const NO_CLUSTER_SENDER: &'static str = "ClusteSyncSender,the cluster sender is none!";

/// What a sender reports when it is told of something it did not ask for.
pub const UNEXPECTED_EVENT: &'static str = "ClusteSyncSender,unexpected event";

/// A sender with `waiting` requests under way and room for `capacity`
/// drops a new request of kind `kind`: it is full, and the request is no
/// ping. A ping is never dropped.
pub open spec fn dropped_on_overflow(kind: RouteKind, waiting: nat, capacity: nat) -> bool {
    waiting >= capacity && kind != RouteKind::Ping
}

/// Where a request stands on its way to the peer.
#[derive(Clone, Copy, Debug, PartialEq, Eq, Structural)]
pub enum SendPhase {
    /// The first attempt is under way.
    FirstAttempt,
    /// The first attempt failed; the pause before the second is running.
    Pausing,
    /// The second attempt is under way.
    SecondAttempt,
    /// The request is settled.
    Done,
}

/// The kinds of news a sender can be told.
#[derive(Clone, Copy, Debug, PartialEq, Eq, Structural)]
pub enum SendEventKind {
    /// The transport could not deliver the request.
    Failed,
    /// The peer answered.
    Delivered,
    /// The pause is over.
    Resumed,
}

/// The phase that follows `phase` when an event of kind `event` arrives.
pub open spec fn next_phase(phase: SendPhase, ping: bool, event: SendEventKind) -> SendPhase {
    if phase == SendPhase::FirstAttempt && event == SendEventKind::Failed && !ping {
        SendPhase::Pausing
    } else if phase == SendPhase::Pausing && event == SendEventKind::Resumed {
        SendPhase::SecondAttempt
    } else {
        SendPhase::Done
    }
}

/// An event of kind `event` in phase `phase` makes the sender transmit.
pub open spec fn transmits_on(phase: SendPhase, event: SendEventKind) -> bool {
    phase == SendPhase::Pausing && event == SendEventKind::Resumed
}

/// The number of transmissions a sender makes from `phase` on while it is
/// told `events` in turn.
pub open spec fn later_attempts(phase: SendPhase, ping: bool, events: Seq<SendEventKind>) -> nat
    decreases events.len(),
{
    if events.len() == 0 {
        0
    } else {
        let first: nat = if transmits_on(phase, events[0]) {
            1
        } else {
            0
        };
        first + later_attempts(next_phase(phase, ping, events[0]), ping, events.drop_first())
    }
}

/// The number of transmissions made for one request: the one that handling
/// it starts with, where the sender can reach its peer, and those that
/// follow while it is told `events` in turn.
pub open spec fn attempts(ready: bool, ping: bool, events: Seq<SendEventKind>) -> nat {
    if ready {
        1 + later_attempts(SendPhase::FirstAttempt, ping, events)
    } else {
        later_attempts(SendPhase::Done, ping, events)
    }
}

proof fn lemma_none_after_done(ping: bool, events: Seq<SendEventKind>)
    ensures
        later_attempts(SendPhase::Done, ping, events) == 0,
    decreases events.len(),
{
    if events.len() > 0 {
        lemma_none_after_done(ping, events.drop_first());
    }
}

proof fn lemma_none_after_second(ping: bool, events: Seq<SendEventKind>)
    ensures
        later_attempts(SendPhase::SecondAttempt, ping, events) == 0,
{
    if events.len() > 0 {
        lemma_none_after_done(ping, events.drop_first());
    }
}

proof fn lemma_one_after_pause(ping: bool, events: Seq<SendEventKind>)
    ensures
        later_attempts(SendPhase::Pausing, ping, events) <= 1,
{
    if events.len() > 0 {
        lemma_none_after_done(ping, events.drop_first());
        lemma_none_after_second(ping, events.drop_first());
    }
}

/// Retry bound: whatever a sender is told, it transmits a request at most
/// twice, and a ping at most once.
pub proof fn law_retry_bound(ready: bool, ping: bool, events: Seq<SendEventKind>)
    ensures
        attempts(ready, ping, events) <= 2,
        ping ==> attempts(ready, ping, events) <= 1,
{
    lemma_none_after_done(ping, events);
    if events.len() > 0 {
        lemma_none_after_done(ping, events.drop_first());
        lemma_one_after_pause(ping, events.drop_first());
    }
}

/// A sender that can reach its peer transmits a ping exactly once.
pub proof fn law_ping_sent_once(events: Seq<SendEventKind>)
    ensures
        attempts(true, true, events) == 1,
{
    if events.len() > 0 {
        lemma_none_after_done(true, events.drop_first());
    }
}

/// A request on its way: the phase it is in and what was captured when its
/// handling began.
pub struct SendState {
    phase: SendPhase,
    ping: bool,
    target_addr: Arc<String>,
    payload: Payload,
}

/// News for a sender about the request it is working on.
pub enum SendEvent {
    /// The transport could not deliver the request; the text says why.
    Failed(String),
    /// The peer answered; the body decoded to a response, or the decoder
    /// complained.
    Delivered(Result<NamingRouterResponse, String>),
    /// The pause is over.
    Resumed,
}

impl SendEvent {
    /// The kind of the event.
    pub open spec fn kind(self) -> SendEventKind {
        match self {
            SendEvent::Failed(_) => SendEventKind::Failed,
            SendEvent::Delivered(_) => SendEventKind::Delivered,
            SendEvent::Resumed => SendEventKind::Resumed,
        }
    }
}

/// What a sender wants done next.
pub enum SendAction {
    /// Transmit `payload` to `target_addr` and report what came of it.
    Transmit { target_addr: Arc<String>, payload: Payload, timeout_millis: u64 },
    /// Wait, then report that the pause is over.
    Pause { millis: u64 },
    /// The request is settled with this outcome.
    Finish(Result<SyncSenderResponse, NamingError>),
}

impl SendState {
    /// The phase the request is in.
    pub closed spec fn phase(self) -> SendPhase {
        self.phase
    }

    /// The request is a ping.
    pub closed spec fn ping(self) -> bool {
        self.ping
    }

    /// The address captured when handling began.
    pub closed spec fn target_addr(self) -> Seq<char> {
        self.target_addr@
    }

    /// The payload captured when handling began.
    pub closed spec fn payload(self) -> PayloadView {
        self.payload@
    }

    /// The phase the request is in.
    pub fn current_phase(&self) -> (phase: SendPhase)
        ensures
            phase == self.phase(),
    {
        self.phase
    }

    /// Tells whether the request is settled.
    pub fn is_done(&self) -> (done: bool)
        ensures
            done == (self.phase() == SendPhase::Done),
    {
        match self.phase {
            SendPhase::Done => true,
            _ => false,
        }
    }

    /// What `event` leads to in `state`: the outcome `action` says is the
    /// one the retry rule asks for.
    pub open spec fn answers(state: SendState, event: SendEvent, action: SendAction) -> bool {
        let attempting = state.phase() == SendPhase::FirstAttempt || state.phase()
            == SendPhase::SecondAttempt;
        match event {
            SendEvent::Delivered(Ok(_)) if attempting => action == SendAction::Finish(
                Ok(SyncSenderResponse::Empty),
            ),
            SendEvent::Delivered(Err(report)) if attempting => action matches SendAction::Finish(
                Err(NamingError::SerializationError(text)),
            ) && text@ == report@,
            SendEvent::Failed(report) if attempting => if state.phase() == SendPhase::FirstAttempt
                && !state.ping() {
                action == (SendAction::Pause { millis: RETRY_PAUSE_MILLIS })
            } else {
                action matches SendAction::Finish(Err(NamingError::PeerUnreachable(text))) && text@
                    == report@
            },
            SendEvent::Resumed if state.phase() == SendPhase::Pausing => action matches SendAction::Transmit {
                target_addr,
                payload,
                timeout_millis,
            } && target_addr@ == state.target_addr() && payload@ == state.payload()
                && timeout_millis == REQUEST_TIMEOUT_MILLIS,
            _ => action matches SendAction::Finish(Err(NamingError::SystemError(text))) && text@
                == UNEXPECTED_EVENT@,
        }
    }

    /// Takes in `event` and says what to do next.
    ///
    /// A failed first attempt leads to a pause and then to a second
    /// attempt with the same address and payload, unless the request is a
    /// ping; every other failure settles the request with the failure. An
    /// answer settles it: with success when it decoded, else with the
    /// decoder's report. News that fits no attempt under way settles the
    /// request with a system error.
    pub fn advance(self, event: SendEvent) -> (next: (SendState, SendAction))
        ensures
            next.0.phase() == next_phase(self.phase(), self.ping(), event.kind()),
            next.0.ping() == self.ping(),
            next.0.target_addr() == self.target_addr(),
            next.0.payload() == self.payload(),
            (next.1 is Transmit) == transmits_on(self.phase(), event.kind()),
            SendState::answers(self, event, next.1),
    {
        let SendState { phase, ping, target_addr, payload } = self;
        let attempting = match phase {
            SendPhase::FirstAttempt => true,
            SendPhase::SecondAttempt => true,
            _ => false,
        };
        let first = match phase {
            SendPhase::FirstAttempt => true,
            _ => false,
        };
        let pausing = match phase {
            SendPhase::Pausing => true,
            _ => false,
        };
        match event {
            SendEvent::Delivered(Ok(_)) if attempting => (
                SendState { phase: SendPhase::Done, ping, target_addr, payload },
                SendAction::Finish(Ok(SyncSenderResponse::Empty)),
            ),
            SendEvent::Delivered(Err(report)) if attempting => (
                SendState { phase: SendPhase::Done, ping, target_addr, payload },
                SendAction::Finish(Err(NamingError::SerializationError(report))),
            ),
            SendEvent::Failed(report) if attempting => {
                if first && !ping {
                    (
                        SendState { phase: SendPhase::Pausing, ping, target_addr, payload },
                        SendAction::Pause { millis: RETRY_PAUSE_MILLIS },
                    )
                } else {
                    (
                        SendState { phase: SendPhase::Done, ping, target_addr, payload },
                        SendAction::Finish(Err(NamingError::PeerUnreachable(report))),
                    )
                }
            },
            SendEvent::Resumed if pausing => {
                let addr = target_addr.duplicate();
                let copy = payload.clone();
                (
                    SendState { phase: SendPhase::SecondAttempt, ping, target_addr, payload },
                    SendAction::Transmit {
                        target_addr: addr,
                        payload: copy,
                        timeout_millis: REQUEST_TIMEOUT_MILLIS,
                    },
                )
            },
            _ => (
                SendState { phase: SendPhase::Done, ping, target_addr, payload },
                SendAction::Finish(
                    Err(NamingError::SystemError(UNEXPECTED_EVENT.to_owned())),
                ),
            ),
        }
    }
}

/// The sender of one peer.
pub struct ClusteSyncSender {
    target_id: u64,
    target_addr: Arc<String>,
    cluster_sender_ready: bool,
    send_extend_infos: StringMap,
}

impl ClusteSyncSender {
    /// The id of the peer.
    pub closed spec fn target_id(self) -> u64 {
        self.target_id
    }

    /// The address requests are sent to.
    pub closed spec fn target_addr(self) -> Seq<char> {
        self.target_addr@
    }

    /// The sender was given a way to reach its peer.
    pub closed spec fn ready(self) -> bool {
        self.cluster_sender_ready
    }

    /// The headers every request of this sender carries.
    pub closed spec fn extend_headers(self) -> Map<Seq<char>, Seq<char>> {
        text_map(self.send_extend_infos@)
    }

    /// The payload a request of kind `kind` with the serialized form `body`
    /// goes out in: the sender's headers and the tag of the kind.
    pub open spec fn payload_for(self, kind: RouteKind, body: Seq<char>) -> PayloadView {
        PayloadView {
            type_url: NAMING_ROUTE_REQUEST@,
            client_ip: Seq::<char>::empty(),
            headers: self.extend_headers().insert(GRPC_HEAD_KEY_SUB_NAME@, kind.sub_name()),
            body: vstd::utf8::encode_utf8(body),
        }
    }

    /// A sender on node `local_id` for the peer `target_id` at
    /// `target_addr`. `cluster_sender_ready` says whether there is a
    /// transport to reach the peer with.
    pub fn new(local_id: u64, target_id: u64, target_addr: Arc<String>, cluster_sender_ready: bool) -> (sender:
        Self)
        ensures
            sender.target_id() == target_id,
            sender.target_addr() == target_addr@,
            sender.ready() == cluster_sender_ready,
            sender.extend_headers() == Map::<Seq<char>, Seq<char>>::empty().insert(
                GRPC_HEAD_KEY_CLUSTER_ID@,
                decimal(local_id as nat),
            ),
    {
        let mut send_extend_infos: StringMap = StringMap::new();
        let id = to_decimal(local_id);
        proof {
            lemma_text_map_insert(send_extend_infos@, GRPC_HEAD_KEY_CLUSTER_ID@, id);
            assert(text_map(send_extend_infos@) =~= Map::<Seq<char>, Seq<char>>::empty());
        }
        send_extend_infos.insert(GRPC_HEAD_KEY_CLUSTER_ID.to_owned(), id);
        ClusteSyncSender { target_id, target_addr, cluster_sender_ready, send_extend_infos }
    }

    /// Applies a change of settings: the peer's new address replaces the
    /// old one, and nothing else changes.
    pub fn handle_set_cmd(&mut self, msg: SyncSenderSetCmd) -> (result: Result<
        SyncSenderResponse,
        NamingError,
    >)
        ensures
            result == Ok::<SyncSenderResponse, NamingError>(SyncSenderResponse::Empty),
            msg matches SyncSenderSetCmd::UpdateTargetAddr(addr) && final(self).target_addr()
                == addr@,
            final(self).target_id() == old(self).target_id(),
            final(self).ready() == old(self).ready(),
            final(self).extend_headers() == old(self).extend_headers(),
    {
        match msg {
            SyncSenderSetCmd::UpdateTargetAddr(target_addr) => {
                self.target_addr = target_addr;
                Ok(SyncSenderResponse::Empty)
            },
        }
    }

    /// Tells whether a sender with `waiting` requests under way and room
    /// for `capacity` takes `msg` in. What it does not take in is dropped
    /// and counted; the peer learns of it from the next snapshot.
    pub fn admits(msg: &SyncSenderRequest, waiting: usize, capacity: usize) -> (taken: bool)
        ensures
            taken == !dropped_on_overflow(msg.0.kind(), waiting as nat, capacity as nat),
    {
        waiting < capacity || msg.0.is_ping()
    }

    /// Begins the handling of `msg`, whose serialized form is `body`.
    ///
    /// A sender without a transport settles the request at once with a
    /// system error. Otherwise the first attempt goes to the current
    /// address, in an envelope that carries the sender's headers and the
    /// request's tag.
    pub fn handle(&self, msg: &SyncSenderRequest, body: String) -> (begun: (SendState, SendAction))
        ensures
            begun.0.ping() == (msg.0.kind() == RouteKind::Ping),
            begun.0.target_addr() == self.target_addr(),
            begun.0.payload() == self.payload_for(msg.0.kind(), body@),
            self.ready() ==> begun.0.phase() == SendPhase::FirstAttempt && (begun.1 matches SendAction::Transmit {
                target_addr,
                payload,
                timeout_millis,
            } && target_addr@ == self.target_addr() && payload@ == self.payload_for(
                msg.0.kind(),
                body@,
            ) && timeout_millis == REQUEST_TIMEOUT_MILLIS),
            !self.ready() ==> begun.0.phase() == SendPhase::Done && (begun.1 matches SendAction::Finish(
                Err(NamingError::SystemError(text)),
            ) && text@ == NO_CLUSTER_SENDER@),
    {
        let mut send_extend_infos = copy_string_map(&self.send_extend_infos);
        let sub_name = msg.0.get_sub_name().to_owned();
        proof {
            lemma_text_map_insert(send_extend_infos@, GRPC_HEAD_KEY_SUB_NAME@, sub_name);
        }
        send_extend_infos.insert(GRPC_HEAD_KEY_SUB_NAME.to_owned(), sub_name);
        proof {
            reveal_strlit("");
            assert(""@ =~= Seq::<char>::empty());
        }
        let payload = PayloadUtils::build_full_payload(
            NAMING_ROUTE_REQUEST,
            body,
            "",
            send_extend_infos,
        );
        let ping = msg.0.is_ping();
        if !self.cluster_sender_ready {
            return (
                SendState {
                    phase: SendPhase::Done,
                    ping,
                    target_addr: self.target_addr.duplicate(),
                    payload,
                },
                SendAction::Finish(Err(NamingError::SystemError(NO_CLUSTER_SENDER.to_owned()))),
            );
        }
        let copy = payload.clone();
        (
            SendState {
                phase: SendPhase::FirstAttempt,
                ping,
                target_addr: self.target_addr.duplicate(),
                payload,
            },
            SendAction::Transmit {
                target_addr: self.target_addr.duplicate(),
                payload: copy,
                timeout_millis: REQUEST_TIMEOUT_MILLIS,
            },
        )
    }
}

} // verus!
