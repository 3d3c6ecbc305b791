//! The control channel worker: strict request and reply over a synchronous
//! transport. It greets, forwards queued messages one at a time, and says
//! goodbye when the queue closes; any transport failure ends it.
use vstd::prelude::*;

use crate::codec::{encode, encoding};
use crate::message::{MessageModel, MessageType};

verus! {

/// Where the control worker stands.
#[derive(Clone, Copy, Debug, PartialEq, Eq, Structural)]
pub enum ControlPhase {
    /// `Hello` was sent; its reply is awaited.
    Greeting,
    /// Joined: the next queued message is awaited.
    Ready,
    /// A chat message was sent; its reply is awaited.
    Forwarding,
    /// `Goodbye` was sent; its reply is awaited.
    Closing,
    /// `Goodbye` was acknowledged: the worker is done.
    Finished,
    /// The transport failed, or an event came out of turn: the session is
    /// aborted.
    Failed,
}

/// What happened to the control worker.
#[derive(Debug)]
pub enum ControlEvent {
    /// One reply frame arrived.
    Reply,
    /// The interface queued a message.
    Queued(MessageType),
    /// The interface closed the queue.
    QueueClosed,
    /// Sending or receiving failed.
    TransportFailed,
}

/// What the control worker does next.
#[derive(Debug, PartialEq, Eq)]
pub enum ControlAction {
    /// Send this request, then block for its reply.
    Request(String),
    /// Block for the next queued message, or for the queue's closing.
    AwaitQueue,
    /// End the worker: the session closed cleanly.
    Stop,
    /// End the worker: the session is aborted.
    Abort,
}

pub ghost enum EventModel {
    Reply,
    Queued(MessageModel),
    QueueClosed,
    TransportFailed,
}

pub ghost enum ActionModel {
    Request(Seq<char>),
    AwaitQueue,
    Stop,
    Abort,
}

impl View for ControlEvent {
    type V = EventModel;

    open spec fn view(&self) -> EventModel {
        match self {
            ControlEvent::Reply => EventModel::Reply,
            ControlEvent::Queued(m) => EventModel::Queued(m@),
            ControlEvent::QueueClosed => EventModel::QueueClosed,
            ControlEvent::TransportFailed => EventModel::TransportFailed,
        }
    }
}

impl View for ControlAction {
    type V = ActionModel;

    open spec fn view(&self) -> ActionModel {
        match self {
            ControlAction::Request(s) => ActionModel::Request(s@),
            ControlAction::AwaitQueue => ActionModel::AwaitQueue,
            ControlAction::Stop => ActionModel::Stop,
            ControlAction::Abort => ActionModel::Abort,
        }
    }
}

/// The phases in which a reply is awaited, and nothing may be sent.
pub open spec fn awaits_reply(p: ControlPhase) -> bool {
    p == ControlPhase::Greeting || p == ControlPhase::Forwarding || p == ControlPhase::Closing
}

/// One step of the control worker of `name` in `channel`.
pub open spec fn control_next(p: ControlPhase, name: Seq<char>, channel: Seq<char>, e: EventModel) -> (
    ControlPhase,
    ActionModel,
) {
    match (p, e) {
        (ControlPhase::Finished, _) => (ControlPhase::Finished, ActionModel::Stop),
        (ControlPhase::Failed, _) => (ControlPhase::Failed, ActionModel::Abort),
        (_, EventModel::TransportFailed) => (ControlPhase::Failed, ActionModel::Abort),
        (ControlPhase::Greeting, EventModel::Reply) => (ControlPhase::Ready, ActionModel::AwaitQueue),
        (ControlPhase::Forwarding, EventModel::Reply) => (
            ControlPhase::Ready,
            ActionModel::AwaitQueue,
        ),
        (ControlPhase::Closing, EventModel::Reply) => (ControlPhase::Finished, ActionModel::Stop),
        (ControlPhase::Ready, EventModel::Queued(m)) => (
            ControlPhase::Forwarding,
            ActionModel::Request(encoding(m)),
        ),
        (ControlPhase::Ready, EventModel::QueueClosed) => (
            ControlPhase::Closing,
            ActionModel::Request(encoding(MessageModel::Goodbye { name, channel })),
        ),
        _ => (ControlPhase::Failed, ActionModel::Abort),
    }
}

/// The phase after a run of events, and the actions taken, one per event.
pub open spec fn control_run(
    p: ControlPhase,
    name: Seq<char>,
    channel: Seq<char>,
    events: Seq<EventModel>,
) -> (ControlPhase, Seq<ActionModel>)
    decreases events.len(),
{
    if events.len() == 0 {
        (p, seq![])
    } else {
        let (q, a) = control_next(p, name, channel, events[0]);
        let (last, rest) = control_run(q, name, channel, events.skip(1));
        (last, seq![a] + rest)
    }
}

/// The control worker of one session.
#[derive(Debug)]
pub struct ControlWorker {
    pub name: String,
    pub channel: String,
    pub phase: ControlPhase,
}

impl ControlWorker {
    /// Starts a session: the worker greets first, and takes no queued
    /// message before the greeting's reply.
    pub fn start(name: String, channel: String) -> (r: (ControlWorker, String))
        ensures
            r.0.name == name,
            r.0.channel == channel,
            r.0.phase == ControlPhase::Greeting,
            r.1@ == encoding(MessageModel::Hello { name: name@, channel: channel@ }),
    {
        let hello = MessageType::Hello { name: name.clone(), channel: channel.clone() };
        let request = encode(&hello);
        (ControlWorker { name, channel, phase: ControlPhase::Greeting }, request)
    }

    /// Takes one event and says what to do next.
    pub fn step(&mut self, event: ControlEvent) -> (r: ControlAction)
        ensures
            final(self).name == old(self).name,
            final(self).channel == old(self).channel,
            (final(self).phase, r@) == control_next(
                old(self).phase,
                old(self).name@,
                old(self).channel@,
                event@,
            ),
    {
        let (phase, action) = match (self.phase, event) {
            (ControlPhase::Finished, _) => (ControlPhase::Finished, ControlAction::Stop),
            (ControlPhase::Failed, _) => (ControlPhase::Failed, ControlAction::Abort),
            (_, ControlEvent::TransportFailed) => (ControlPhase::Failed, ControlAction::Abort),
            (ControlPhase::Greeting, ControlEvent::Reply) => (
                ControlPhase::Ready,
                ControlAction::AwaitQueue,
            ),
            (ControlPhase::Forwarding, ControlEvent::Reply) => (
                ControlPhase::Ready,
                ControlAction::AwaitQueue,
            ),
            (ControlPhase::Closing, ControlEvent::Reply) => (
                ControlPhase::Finished,
                ControlAction::Stop,
            ),
            (ControlPhase::Ready, ControlEvent::Queued(m)) => (
                ControlPhase::Forwarding,
                ControlAction::Request(encode(&m)),
            ),
            (ControlPhase::Ready, ControlEvent::QueueClosed) => {
                let goodbye = MessageType::Goodbye {
                    name: self.name.clone(),
                    channel: self.channel.clone(),
                };
                (ControlPhase::Closing, ControlAction::Request(encode(&goodbye)))
            },
            _ => (ControlPhase::Failed, ControlAction::Abort),
        };
        self.phase = phase;
        action
    }
}

/// The events of a session after its greeting was sent: the greeting's
/// reply, each message queued and acknowledged in turn, then the queue's
/// closing and the goodbye's reply.
pub open spec fn session_events(msgs: Seq<MessageModel>) -> Seq<EventModel> {
    seq![EventModel::Reply] + chat_events(msgs) + seq![EventModel::QueueClosed, EventModel::Reply]
}

pub open spec fn chat_events(msgs: Seq<MessageModel>) -> Seq<EventModel>
    decreases msgs.len(),
{
    if msgs.len() == 0 {
        seq![]
    } else {
        seq![EventModel::Queued(msgs[0]), EventModel::Reply] + chat_events(msgs.skip(1))
    }
}

/// Each message sent as a request, then the queue awaited again.
pub open spec fn chat_requests(msgs: Seq<MessageModel>) -> Seq<ActionModel>
    decreases msgs.len(),
{
    if msgs.len() == 0 {
        seq![]
    } else {
        seq![ActionModel::Request(encoding(msgs[0])), ActionModel::AwaitQueue] + chat_requests(
            msgs.skip(1),
        )
    }
}

pub open spec fn count_requests(actions: Seq<ActionModel>) -> nat
    decreases actions.len(),
{
    if actions.len() == 0 {
        0
    } else {
        (if actions[0] is Request {
            1nat
        } else {
            0nat
        }) + count_requests(actions.skip(1))
    }
}

pub open spec fn count_replies(events: Seq<EventModel>) -> nat
    decreases events.len(),
{
    if events.len() == 0 {
        0
    } else {
        (if events[0] is Reply {
            1nat
        } else {
            0nat
        }) + count_replies(events.skip(1))
    }
}

proof fn lemma_run_concat(
    p: ControlPhase,
    name: Seq<char>,
    channel: Seq<char>,
    a: Seq<EventModel>,
    b: Seq<EventModel>,
)
    ensures
        control_run(p, name, channel, a + b) == ({
            let (q, xs) = control_run(p, name, channel, a);
            let (r, ys) = control_run(q, name, channel, b);
            (r, xs + ys)
        }),
    decreases a.len(),
{
    if a.len() == 0 {
        assert(a + b =~= b);
        let (r, ys) = control_run(p, name, channel, b);
        assert(seq![] + ys =~= ys);
    } else {
        let (q, x) = control_next(p, name, channel, a[0]);
        assert((a + b).skip(1) =~= a.skip(1) + b);
        assert((a + b)[0] == a[0]);
        lemma_run_concat(q, name, channel, a.skip(1), b);
        let (q2, xs) = control_run(q, name, channel, a.skip(1));
        let (r, ys) = control_run(q2, name, channel, b);
        assert(seq![x] + (xs + ys) =~= (seq![x] + xs) + ys);
    }
}

proof fn lemma_run_chat(name: Seq<char>, channel: Seq<char>, msgs: Seq<MessageModel>)
    ensures
        control_run(ControlPhase::Ready, name, channel, chat_events(msgs)) == (
            ControlPhase::Ready,
            chat_requests(msgs),
        ),
    decreases msgs.len(),
{
    if msgs.len() > 0 {
        let two = seq![EventModel::Queued(msgs[0]), EventModel::Reply];
        lemma_run_concat(ControlPhase::Ready, name, channel, two, chat_events(msgs.skip(1)));
        lemma_run_chat(name, channel, msgs.skip(1));
        assert(two.skip(1) =~= seq![EventModel::Reply]);
        assert(two.skip(1).skip(1) =~= seq![]);
        reveal_with_fuel(control_run, 3);
        let acts = seq![ActionModel::Request(encoding(msgs[0])), ActionModel::AwaitQueue];
        assert(control_run(ControlPhase::Ready, name, channel, two).1 =~= acts);
    }
}

proof fn lemma_count_chat(msgs: Seq<MessageModel>)
    ensures
        count_requests(chat_requests(msgs)) == msgs.len(),
        count_replies(chat_events(msgs)) == msgs.len(),
    decreases msgs.len(),
{
    if msgs.len() > 0 {
        lemma_count_chat(msgs.skip(1));
        let acts = chat_requests(msgs);
        let evs = chat_events(msgs);
        assert(acts.skip(1).skip(1) =~= chat_requests(msgs.skip(1)));
        assert(evs.skip(1).skip(1) =~= chat_events(msgs.skip(1)));
        assert(acts[0] is Request && acts.skip(1)[0] is AwaitQueue);
        assert(evs[0] is Queued && evs.skip(1)[0] is Reply);
        reveal_with_fuel(count_requests, 2);
        reveal_with_fuel(count_replies, 2);
    }
}

proof fn lemma_count_concat_requests(a: Seq<ActionModel>, b: Seq<ActionModel>)
    ensures
        count_requests(a + b) == count_requests(a) + count_requests(b),
    decreases a.len(),
{
    if a.len() == 0 {
        assert(a + b =~= b);
    } else {
        assert((a + b).skip(1) =~= a.skip(1) + b);
        lemma_count_concat_requests(a.skip(1), b);
    }
}

proof fn lemma_count_concat_replies(a: Seq<EventModel>, b: Seq<EventModel>)
    ensures
        count_replies(a + b) == count_replies(a) + count_replies(b),
    decreases a.len(),
{
    if a.len() == 0 {
        assert(a + b =~= b);
    } else {
        assert((a + b).skip(1) =~= a.skip(1) + b);
        lemma_count_concat_replies(a.skip(1), b);
    }
}

/// Handshake: a session that greets, forwards `msgs` and says goodbye runs
/// the worker to `Finished` through exactly these actions, alternating a
/// request with the wait that its reply ends. Counting the greeting sent at
/// the start, it makes `msgs.len() + 2` requests and takes as many replies.
pub proof fn lemma_handshake(name: Seq<char>, channel: Seq<char>, msgs: Seq<MessageModel>)
    ensures
        control_run(ControlPhase::Greeting, name, channel, session_events(msgs)) == (
            ControlPhase::Finished,
            seq![ActionModel::AwaitQueue] + chat_requests(msgs) + seq![
                ActionModel::Request(encoding(MessageModel::Goodbye { name, channel })),
                ActionModel::Stop,
            ],
        ),
        1 + count_requests(
            control_run(ControlPhase::Greeting, name, channel, session_events(msgs)).1,
        ) == msgs.len() + 2,
        count_replies(session_events(msgs)) == msgs.len() + 2,
{
    let first = seq![EventModel::Reply];
    let last = seq![EventModel::QueueClosed, EventModel::Reply];
    let g = ControlPhase::Greeting;
    lemma_run_concat(g, name, channel, first + chat_events(msgs), last);
    lemma_run_concat(g, name, channel, first, chat_events(msgs));
    lemma_run_chat(name, channel, msgs);
    assert(first.skip(1) =~= seq![]);
    assert(last.skip(1) =~= seq![EventModel::Reply]);
    assert(last.skip(1).skip(1) =~= seq![]);
    reveal_with_fuel(control_run, 3);
    reveal_with_fuel(count_requests, 3);
    reveal_with_fuel(count_replies, 3);
    let bye = ActionModel::Request(encoding(MessageModel::Goodbye { name, channel }));
    assert(control_run(ControlPhase::Ready, name, channel, last).1 =~= seq![
        bye,
        ActionModel::Stop,
    ]);
    let acts = seq![ActionModel::AwaitQueue] + chat_requests(msgs) + seq![bye, ActionModel::Stop];
    assert(control_run(g, name, channel, session_events(msgs)).1 =~= acts);
    lemma_count_chat(msgs);
    lemma_count_concat_requests(seq![ActionModel::AwaitQueue] + chat_requests(msgs), seq![bye, ActionModel::Stop]);
    lemma_count_concat_requests(seq![ActionModel::AwaitQueue], chat_requests(msgs));
    assert(seq![bye, ActionModel::Stop].skip(1).skip(1) =~= seq![]);
    assert(seq![ActionModel::AwaitQueue].skip(1) =~= seq![]);
    lemma_count_concat_replies(first + chat_events(msgs), last);
    lemma_count_concat_replies(first, chat_events(msgs));
}

/// No pipelining: a request goes out only where no reply is awaited, and
/// then one is; while a reply is awaited, anything but a reply aborts.
pub proof fn lemma_request_waits_for_reply(
    p: ControlPhase,
    name: Seq<char>,
    channel: Seq<char>,
    e: EventModel,
)
    ensures
        control_next(p, name, channel, e).1 is Request ==> p == ControlPhase::Ready
            && awaits_reply(control_next(p, name, channel, e).0),
        awaits_reply(p) && !(e is Reply) ==> control_next(p, name, channel, e).0
            == ControlPhase::Failed,
{
}

} // verus!
