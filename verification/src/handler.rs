use vstd::prelude::*;
use tokio::sync::broadcast::Sender;
use crate::app_errors::{AppError, AppResult};
use crate::channel_manage::{pairs_after_leave, ChannelManage, ChannelsView, PairGroup, MAX_PAIR_GROUPS};
use crate::cursor::FrameCursor;
use crate::message::{
    check_frame, decodable, decoded_content, devices_view, frame_bytes, law_frame_roundtrip, type_id_of, DeviceInfo, DeviceView,
    Message, MessageView, PeerAddr,
};
use crate::utils::is_pair_code;

verus! {

/// Attempts to listen for a pairing request beyond which the connection is
/// dropped from the registry.
pub const MAX_ATTEMPTS: i32 = 200;

/// Where a connection's session stands.
#[derive(Debug, Clone, Copy, PartialEq, Eq, Structural)]
pub enum Phase {
    /// Waiting for a request to join or create a pair group.
    Listening,
    /// In a pair group: clipboard content is shared with the group.
    Paired,
    /// The session is over.
    Closed,
}

/// What the connection's surroundings report to its session.
#[derive(Debug)]
pub enum Event {
    /// A complete message arrived on the socket.
    Socket(Message),
    /// The socket closed, a read failed, or a frame could not be read.
    SocketEnded,
    /// Nothing was sent to the client for the liveness period.
    Timeout,
    /// A message was broadcast to the pair group by the connection at the address.
    PairChannel(Message, PeerAddr),
    /// Receiving from the pair group failed.
    PairChannelError,
    /// Another connection sent a message to this one.
    StreamChannel(Message),
    /// This connection's own channel closed.
    StreamChannelClosed,
}

pub enum EventView {
    Socket(MessageView),
    SocketEnded,
    Timeout,
    PairChannel(MessageView, PeerAddr),
    PairChannelError,
    StreamChannel(MessageView),
    StreamChannelClosed,
}

impl View for Event {
    type V = EventView;

    open spec fn view(&self) -> EventView {
        match self {
            Event::Socket(m) => EventView::Socket(m@),
            Event::SocketEnded => EventView::SocketEnded,
            Event::Timeout => EventView::Timeout,
            Event::PairChannel(m, a) => EventView::PairChannel(m@, *a),
            Event::PairChannelError => EventView::PairChannelError,
            Event::StreamChannel(m) => EventView::StreamChannel(m@),
            Event::StreamChannelClosed => EventView::StreamChannelClosed,
        }
    }
}

/// What the session asks its surroundings to do, in order.
#[derive(Debug)]
pub enum Action {
    /// Write the message to the socket and restart the liveness timer.
    SendSocket(Message),
    /// Send the message to the pair group's channel, tagged with this connection's address.
    Broadcast(Sender<(Message, PeerAddr)>, Message),
    /// Send the message to another connection's channel.
    Forward(Sender<Message>, Message),
    /// Start receiving from the pair group's channel and from this
    /// connection's own channel (absent when the connection is not registered).
    ListenPaired(Sender<(Message, PeerAddr)>, Option<Sender<Message>>),
    /// The session is over: close the socket and stop reading it.
    Stop,
}

pub enum ActionView {
    SendSocket(MessageView),
    Broadcast(Sender<(Message, PeerAddr)>, MessageView),
    Forward(Sender<Message>, MessageView),
    ListenPaired(Sender<(Message, PeerAddr)>, Option<Sender<Message>>),
    Stop,
}

impl View for Action {
    type V = ActionView;

    open spec fn view(&self) -> ActionView {
        match self {
            Action::SendSocket(m) => ActionView::SendSocket(m@),
            Action::Broadcast(tx, m) => ActionView::Broadcast(*tx, m@),
            Action::Forward(tx, m) => ActionView::Forward(*tx, m@),
            Action::ListenPaired(p, s) => ActionView::ListenPaired(*p, *s),
            Action::Stop => ActionView::Stop,
        }
    }
}

pub open spec fn actions_view(actions: Seq<Action>) -> Seq<ActionView> {
    actions.map_values(|a: Action| a@)
}

/// What a `Context` stands for.
pub struct ContextView {
    pub count: i32,
    pub addr: PeerAddr,
    pub phase: Phase,
    pub pair_tx: Option<Sender<(Message, PeerAddr)>>,
    pub pair_code: Option<Seq<char>>,
    pub device: Option<DeviceView>,
}

/// The session of one connection: how often it went back to listening for
/// a pairing request, its address, and its pairing state.
pub struct Context {
    count: i32,
    socket_addr: PeerAddr,
    phase: Phase,
    pair_tx: Option<Sender<(Message, PeerAddr)>>,
    pair_code: Option<String>,
    device_info: Option<DeviceInfo>,
}

impl View for Context {
    type V = ContextView;

    closed spec fn view(&self) -> ContextView {
        ContextView {
            count: self.count,
            addr: self.socket_addr,
            phase: self.phase,
            pair_tx: self.pair_tx,
            pair_code: match self.pair_code {
                Some(c) => Some(c@),
                None => None,
            },
            device: match self.device_info {
                Some(d) => Some(d@),
                None => None,
            },
        }
    }
}

/// A paired session knows its group, and a session with a pair code knows
/// the group's channel and its own device.
pub open spec fn context_wf(c: ContextView) -> bool {
    &&& c.phase == Phase::Paired ==> c.pair_code is Some
    &&& c.pair_code is Some ==> c.pair_tx is Some && c.device is Some
}

/// The channel of the connection at `addr`, if one is registered.
pub open spec fn stream_of(ch: ChannelsView, addr: PeerAddr) -> Option<Sender<Message>> {
    if ch.streams.dom().contains(addr) { Some(ch.streams[addr]) } else { None }
}

/// The session with its phase replaced.
pub open spec fn with_phase(c: ContextView, phase: Phase) -> ContextView {
    ContextView { count: c.count, addr: c.addr, phase, pair_tx: c.pair_tx, pair_code: c.pair_code, device: c.device }
}

/// Leaving the pair group: the group hears that this device left, the device
/// leaves the group, and the session forgets its pair code.
pub open spec fn spec_clear_pair_state(c: ContextView, ch: ChannelsView) -> (ContextView, ChannelsView, Seq<ActionView>) {
    let acts = if c.device is Some && c.pair_code is Some && c.pair_tx is Some {
        seq![ActionView::Broadcast(c.pair_tx->0, MessageView::DeviceChangeResponse(false, c.device->0))]
    } else {
        Seq::empty()
    };
    let ch2 = if c.pair_code is Some && c.device is Some {
        ChannelsView { streams: ch.streams, pairs: pairs_after_leave(ch.pairs, c.pair_code->0, c.device->0) }
    } else {
        ch
    };
    (ContextView { count: c.count, addr: c.addr, phase: c.phase, pair_tx: c.pair_tx, pair_code: None, device: c.device }, ch2, acts)
}

/// Disconnecting: leave the pair group, then drop this connection's channel
/// from the registry. Every path that disconnects then ends the session
/// (`spec_shut_down`), whose `Stop` has the socket closed.
pub open spec fn spec_disconnect(c: ContextView, ch: ChannelsView) -> (ContextView, ChannelsView, Seq<ActionView>) {
    let (c1, ch1, acts) = spec_clear_pair_state(c, ch);
    (c1, ChannelsView { streams: ch1.streams.remove(c.addr), pairs: ch1.pairs }, acts)
}

/// Going back to listening for a pairing request; past `MAX_ATTEMPTS` such
/// returns the connection is disconnected and the session ends.
pub open spec fn spec_start_work(c: ContextView, ch: ChannelsView) -> (ContextView, ChannelsView, Seq<ActionView>) {
    let c1 = ContextView {
        count: (c.count + 1) as i32,
        addr: c.addr,
        phase: Phase::Listening,
        pair_tx: c.pair_tx,
        pair_code: c.pair_code,
        device: c.device,
    };
    if c1.count > MAX_ATTEMPTS {
        spec_shut_down(c1, ch)
    } else {
        (c1, ch, Seq::empty())
    }
}

/// Disconnecting and ending the session.
pub open spec fn spec_shut_down(c: ContextView, ch: ChannelsView) -> (ContextView, ChannelsView, Seq<ActionView>) {
    let (c1, ch1, acts) = spec_disconnect(c, ch);
    (with_phase(c1, Phase::Closed), ch1, acts.push(ActionView::Stop))
}

/// Whether a listening session that acts on `m` goes back to listening.
pub open spec fn before_pair_restarts(ch: ChannelsView, m: MessageView) -> bool {
    match m {
        MessageView::PairRequest(code, _, create) => !ch.pairs.dom().contains(code) && !create,
        MessageView::PairCreate(_) => false,
        MessageView::Close => false,
        MessageView::WorkError => false,
        _ => true,
    }
}

/// Whether the step goes back to listening, and so counts one more attempt.
pub open spec fn counts_attempt(c: ContextView, ch: ChannelsView, e: EventView) -> bool {
    match c.phase {
        Phase::Listening => match listening_message(e) {
            Some(m) => !(m is HeartPackage || m is Clipboard || m is RemovePairRequest) && before_pair_restarts(ch, m),
            None => false,
        },
        Phase::Paired => match e {
            EventView::Socket(m) => m == MessageView::RemovePairRequest(c.addr),
            EventView::StreamChannel(m) => m == MessageView::RemovePairRequest(c.addr),
            _ => false,
        },
        Phase::Closed => false,
    }
}

/// The device for which a message asks a new pair group: a request to create
/// one, or a request to join an absent group with the flag that asks for it
/// to be created.
pub open spec fn group_request(ch: ChannelsView, m: MessageView) -> Option<DeviceView> {
    match m {
        MessageView::PairCreate(device) => Some(device),
        MessageView::PairRequest(code, device, create) => if create && !ch.pairs.dom().contains(code) {
            Some(device)
        } else {
            None
        },
        _ => None,
    }
}

/// Whether the event makes the session create a pair group.
pub open spec fn creates_group(c: ContextView, ch: ChannelsView, e: EventView) -> bool {
    &&& c.phase == Phase::Listening
    &&& e is Socket
    &&& group_request(ch, e->Socket_0) is Some
}

/// The message that a listening session acts on for an event, if any.
pub open spec fn listening_message(e: EventView) -> Option<MessageView> {
    match e {
        EventView::Socket(m) => Some(m),
        EventView::SocketEnded => Some(MessageView::WorkError),
        EventView::Timeout => Some(MessageView::WorkError),
        _ => None,
    }
}

/// A listening session's answer to a message that ends its listening:
/// joining a group, ending the session, or going back to listening.
/// (Creating a group, on a create request or on a join request for an absent
/// group that asks for it, is stated apart, as its code is drawn at random.)
pub open spec fn spec_before_pair(c: ContextView, ch: ChannelsView, m: MessageView) -> (ContextView, ChannelsView, Seq<ActionView>) {
    match m {
        MessageView::PairRequest(code, device, _) => {
            if ch.pairs.dom().contains(code) {
                let g = ch.pairs[code];
                let devices = g.devices.push(device);
                let ch2 = ChannelsView {
                    streams: ch.streams,
                    pairs: ch.pairs.insert(code, PairGroup { tx: g.tx, devices }),
                };
                let c2 = ContextView {
                    count: c.count,
                    addr: c.addr,
                    phase: Phase::Paired,
                    pair_tx: Some(g.tx),
                    pair_code: Some(code),
                    device: Some(device),
                };
                (c2, ch2, seq![
                    ActionView::SendSocket(MessageView::PairDeviceInfosResponse(devices)),
                    ActionView::Broadcast(g.tx, MessageView::DeviceChangeResponse(true, device)),
                    ActionView::ListenPaired(g.tx, stream_of(ch, c.addr)),
                ])
            } else {
                let (c2, ch2, acts) = spec_start_work(c, ch);
                (c2, ch2, seq![ActionView::SendSocket(MessageView::NoPairDeviceResponse)] + acts)
            }
        },
        MessageView::Close => spec_shut_down(c, ch),
        MessageView::WorkError => spec_shut_down(c, ch),
        _ => spec_start_work(c, ch),
    }
}

/// A listening session's step, other than creating a group.
pub open spec fn spec_listening(c: ContextView, ch: ChannelsView, e: EventView) -> (ContextView, ChannelsView, Seq<ActionView>) {
    match listening_message(e) {
        Some(MessageView::HeartPackage) => (c, ch, seq![ActionView::SendSocket(MessageView::HeartPackage)]),
        Some(MessageView::Clipboard(_)) => (c, ch, Seq::empty()),
        Some(MessageView::RemovePairRequest(_)) => (c, ch, Seq::empty()),
        Some(m) => spec_before_pair(c, ch, m),
        None => (c, ch, Seq::empty()),
    }
}

/// A paired session's answer to a message from its client or from another
/// connection.
pub open spec fn spec_paired_message(c: ContextView, ch: ChannelsView, m: MessageView) -> (ContextView, ChannelsView, Seq<ActionView>) {
    match m {
        MessageView::HeartPackage => (c, ch, seq![ActionView::SendSocket(MessageView::HeartPackage)]),
        MessageView::Clipboard(_) => (c, ch, if c.pair_tx is Some {
            seq![ActionView::Broadcast(c.pair_tx->0, m)]
        } else {
            Seq::empty()
        }),
        MessageView::RemovePairRequest(a) => {
            if a == c.addr {
                let (c1, ch1, acts1) = spec_clear_pair_state(c, ch);
                let (c2, ch2, acts2) = spec_start_work(c1, ch1);
                (c2, ch2, acts1 + seq![ActionView::SendSocket(MessageView::RemovePairResponse)] + acts2)
            } else {
                (c, ch, match stream_of(ch, a) {
                    Some(tx) => seq![ActionView::Forward(tx, MessageView::RemovePairRequest(a))],
                    None => Seq::empty(),
                })
            }
        },
        MessageView::Close => spec_shut_down(c, ch),
        _ => (c, ch, Seq::empty()),
    }
}

/// A paired session's step.
pub open spec fn spec_paired(c: ContextView, ch: ChannelsView, e: EventView) -> (ContextView, ChannelsView, Seq<ActionView>) {
    match e {
        EventView::PairChannel(m, from) => (c, ch, if from != c.addr && (m is Clipboard || m is DeviceChangeResponse) {
            seq![ActionView::SendSocket(m)]
        } else {
            Seq::empty()
        }),
        EventView::PairChannelError => (c, ch, Seq::empty()),
        EventView::StreamChannel(m) => spec_paired_message(c, ch, m),
        EventView::StreamChannelClosed => (with_phase(c, Phase::Closed), ch, seq![ActionView::Stop]),
        EventView::Socket(m) => spec_paired_message(c, ch, m),
        EventView::SocketEnded => spec_shut_down(c, ch),
        EventView::Timeout => spec_shut_down(c, ch),
    }
}

/// A session's step on an event, for every event that creates no pair group.
pub open spec fn spec_step(c: ContextView, ch: ChannelsView, e: EventView) -> (ContextView, ChannelsView, Seq<ActionView>) {
    match c.phase {
        Phase::Listening => spec_listening(c, ch, e),
        Phase::Paired => spec_paired(c, ch, e),
        Phase::Closed => (c, ch, Seq::empty()),
    }
}

/// Creating a pair group for `device` under the fresh code `code` with the
/// new channel `tx`: the client hears the code, and the session joins the group.
/// Both `code` and `tx` are new: no group had them before.
pub open spec fn fresh_group(ch: ChannelsView, code: Seq<char>, tx: Sender<(Message, PeerAddr)>) -> bool {
    &&& is_pair_code(code)
    &&& !ch.pairs.dom().contains(code)
    &&& forall|k: Seq<char>| #[trigger] ch.pairs.dom().contains(k) ==> ch.pairs[k].tx != tx
}

pub open spec fn spec_created(
    c: ContextView,
    ch: ChannelsView,
    device: DeviceView,
    code: Seq<char>,
    tx: Sender<(Message, PeerAddr)>,
) -> (ContextView, ChannelsView, Seq<ActionView>) {
    let ch2 = ChannelsView {
        streams: ch.streams,
        pairs: ch.pairs.insert(code, PairGroup { tx, devices: seq![device] }),
    };
    let c2 = ContextView {
        count: c.count,
        addr: c.addr,
        phase: Phase::Paired,
        pair_tx: Some(tx),
        pair_code: Some(code),
        device: Some(device),
    };
    (c2, ch2, seq![
        ActionView::SendSocket(MessageView::PairCodeResponse(code)),
        ActionView::ListenPaired(tx, stream_of(ch, c.addr)),
    ])
}

/// The relation between a session and registry before and after an event,
/// and the actions asked for.
pub open spec fn step_rel(
    c: ContextView,
    ch: ChannelsView,
    e: EventView,
    c2: ContextView,
    ch2: ChannelsView,
    acts: Seq<ActionView>,
) -> bool {
    if creates_group(c, ch, e) {
        let device = group_request(ch, e->Socket_0)->0;
        &&& c2.pair_code is Some
        &&& c2.pair_tx is Some
        &&& fresh_group(ch, c2.pair_code->0, c2.pair_tx->0)
        &&& (c2, ch2, acts) == spec_created(c, ch, device, c2.pair_code->0, c2.pair_tx->0)
    } else {
        (c2, ch2, acts) == spec_step(c, ch, e)
    }
}

} // verus!

verus! {

proof fn lemma_actions_push(a: Seq<Action>, x: Action)
    ensures
        actions_view(a.push(x)) == actions_view(a).push(x@),
{
    assert(actions_view(a.push(x)) =~= actions_view(a).push(x@));
}

proof fn lemma_actions_concat(a: Seq<Action>, b: Seq<Action>)
    ensures
        actions_view(a + b) == actions_view(a) + actions_view(b),
{
    assert(actions_view(a + b) =~= actions_view(a) + actions_view(b));
}

impl Context {
    /// A session for the connection at `addr`, not yet listening.
    pub fn new(addr: PeerAddr) -> (r: Self)
        ensures
            r@ == (ContextView { count: 0, addr, phase: Phase::Listening, pair_tx: None, pair_code: None, device: None }),
            context_wf(r@),
    {
        Context { count: 0, socket_addr: addr, phase: Phase::Listening, pair_tx: None, pair_code: None, device_info: None }
    }

    pub fn count(&self) -> (r: i32)
        ensures
            r == self@.count,
    {
        self.count
    }

    pub fn phase(&self) -> (r: Phase)
        ensures
            r == self@.phase,
    {
        self.phase
    }

    pub fn socket_addr(&self) -> (r: PeerAddr)
        ensures
            r == self@.addr,
    {
        self.socket_addr
    }

    pub fn pair_code(&self) -> (r: Option<&String>)
        ensures
            match r {
                Some(c) => self@.pair_code == Some(c@),
                None => self@.pair_code is None,
            },
    {
        match &self.pair_code {
            Some(c) => Some(c),
            None => None,
        }
    }

    /// Whether handling `event` would create a pair group, which needs a free
    /// pair code.
    pub fn creates_pair_group(&self, event: &Event, channels: &ChannelManage) -> (r: bool)
        requires
            channels.wf(),
        ensures
            r == creates_group(self@, channels@, event@),
    {
        match (self.phase, event) {
            (Phase::Listening, Event::Socket(Message::PairCreateMessage(_))) => true,
            (Phase::Listening, Event::Socket(Message::PairRequestMessage(code, _, create))) => {
                *create && !channels.contains_pair_code(code.as_str())
            },
            _ => false,
        }
    }

    /// Whether handling `event` goes back to listening, and so counts one
    /// more attempt.
    pub fn counts_attempt(&self, event: &Event, channels: &ChannelManage) -> (r: bool)
        requires
            channels.wf(),
        ensures
            r == counts_attempt(self@, channels@, event@),
    {
        match self.phase {
            Phase::Listening => {
                let message = match event {
                    Event::Socket(m) => m,
                    Event::SocketEnded | Event::Timeout => return false,
                    _ => return false,
                };
                match message {
                    Message::HeartPackageMessage() | Message::ClipboardMessage(_) | Message::RemovePairRequestMessage(_) => false,
                    Message::PairRequestMessage(code, _, create) => !*create && !channels.contains_pair_code(code.as_str()),
                    Message::PairCreateMessage(_) | Message::CloseMessage() | Message::WorkErrorMessage() => false,
                    _ => true,
                }
            },
            Phase::Paired => match event {
                Event::Socket(Message::RemovePairRequestMessage(a)) => *a == self.socket_addr,
                Event::StreamChannel(Message::RemovePairRequestMessage(a)) => *a == self.socket_addr,
                _ => false,
            },
            Phase::Closed => false,
        }
    }

    /// Tells the client that the server is ready, with the address the server
    /// sees it at.
    pub fn send_ready(&self) -> (r: Vec<Action>)
        ensures
            actions_view(r@) == seq![ActionView::SendSocket(MessageView::ServerReadyResponse(self@.addr))],
    {
        let mut acts = Vec::new();
        acts.push(Action::SendSocket(Message::ServerReadyResponseMessage(self.socket_addr)));
        assert(actions_view(acts@) =~= seq![ActionView::SendSocket(MessageView::ServerReadyResponse(self@.addr))]);
        acts
    }

    /// Sends `message` to the pair group, if the session has its channel.
    fn broadcast_message(&self, message: Message, acts: &mut Vec<Action>)
        ensures
            actions_view(final(acts)@) == actions_view(old(acts)@) + (if self@.pair_tx is Some {
                seq![ActionView::Broadcast(self@.pair_tx->0, message@)]
            } else {
                Seq::empty()
            }),
    {
        let ghost before = acts@;
        if let Some(sender) = &self.pair_tx {
            let a = Action::Broadcast(sender.clone(), message);
            acts.push(a);
            proof {
                lemma_actions_push(before, a);
            }
        } else {
            assert(actions_view(acts@) =~= actions_view(before) + Seq::empty());
        }
    }

    fn clear_pair_state(&mut self, channels: &mut ChannelManage) -> (r: Vec<Action>)
        requires
            old(channels).wf(),
        ensures
            final(channels).wf(),
            (final(self)@, final(channels)@, actions_view(r@)) == spec_clear_pair_state(old(self)@, old(channels)@),
    {
        let mut acts: Vec<Action> = Vec::new();
        let ghost c = self@;
        match (&self.device_info, &self.pair_code) {
            (Some(info), Some(_)) => {
                self.broadcast_message(Message::DeviceChangeResponseMessage(false, info.clone()), &mut acts);
                assert(actions_view(acts@) =~= spec_clear_pair_state(c, old(channels)@).2);
            },
            _ => {
                assert(actions_view(acts@) =~= spec_clear_pair_state(c, old(channels)@).2);
            },
        }
        match (&self.pair_code, &self.device_info) {
            (Some(code), Some(device)) => {
                channels.remove_pair_device(code.as_str(), device.clone());
            },
            _ => {},
        }
        self.pair_code = None;
        acts
    }

    fn disconnect(&mut self, channels: &mut ChannelManage) -> (r: Vec<Action>)
        requires
            old(channels).wf(),
        ensures
            final(channels).wf(),
            (final(self)@, final(channels)@, actions_view(r@)) == spec_disconnect(old(self)@, old(channels)@),
    {
        let acts = self.clear_pair_state(channels);
        channels.remove_stream_channel(self.socket_addr);
        acts
    }

    /// Disconnects and ends the session.
    fn shut_down(&mut self, channels: &mut ChannelManage) -> (r: Vec<Action>)
        requires
            old(channels).wf(),
        ensures
            final(channels).wf(),
            (final(self)@, final(channels)@, actions_view(r@)) == spec_shut_down(old(self)@, old(channels)@),
    {
        let mut acts = self.disconnect(channels);
        self.phase = Phase::Closed;
        let ghost before = acts@;
        acts.push(Action::Stop);
        proof {
            lemma_actions_push(before, Action::Stop);
        }
        acts
    }

    /// Goes back to listening for a pairing request. Past `MAX_ATTEMPTS`
    /// returns the connection is disconnected and the session ends.
    pub fn start_work(&mut self, channels: &mut ChannelManage) -> (r: Vec<Action>)
        requires
            old(channels).wf(),
            old(self)@.count < i32::MAX,
        ensures
            final(channels).wf(),
            (final(self)@, final(channels)@, actions_view(r@)) == spec_start_work(old(self)@, old(channels)@),
    {
        self.count = self.count + 1;
        self.phase = Phase::Listening;
        if self.count > MAX_ATTEMPTS {
            self.shut_down(channels)
        } else {
            let acts = Vec::new();
            assert(actions_view(acts@) =~= Seq::empty());
            acts
        }
    }
}

} // verus!

verus! {

impl Context {
    /// Joins the pair group `tx` as the paired state: the session keeps the
    /// group's channel and asks to receive from it and from its own channel.
    fn set_pair_channel(&mut self, tx: Sender<(Message, PeerAddr)>, channels: &ChannelManage, acts: &mut Vec<Action>)
        requires
            channels.wf(),
        ensures
            final(self)@ == (ContextView {
                count: old(self)@.count,
                addr: old(self)@.addr,
                phase: Phase::Paired,
                pair_tx: Some(tx),
                pair_code: old(self)@.pair_code,
                device: old(self)@.device,
            }),
            actions_view(final(acts)@) == actions_view(old(acts)@).push(ActionView::ListenPaired(tx, stream_of(channels@, old(self)@.addr))),
    {
        let stream = channels.get_stream_channel(self.socket_addr);
        self.pair_tx = Some(tx.clone());
        self.phase = Phase::Paired;
        let ghost before = acts@;
        let a = Action::ListenPaired(tx, stream);
        acts.push(a);
        proof {
            lemma_actions_push(before, a);
        }
    }

    /// A listening session's answer to a message that ends its listening.
    fn handle_before_pair_message(&mut self, message: Message, channels: &mut ChannelManage) -> (r: Vec<Action>)
        requires
            old(channels).wf(),
            before_pair_restarts(old(channels)@, message@) ==> old(self)@.count < i32::MAX,
            group_request(old(channels)@, message@) is Some ==> old(channels)@.pairs.dom().len() < MAX_PAIR_GROUPS,
        ensures
            final(channels).wf(),
            match group_request(old(channels)@, message@) {
                Some(device) => {
                    &&& final(self)@.pair_code is Some
                    &&& final(self)@.pair_tx is Some
                    &&& fresh_group(old(channels)@, final(self)@.pair_code->0, final(self)@.pair_tx->0)
                    &&& (final(self)@, final(channels)@, actions_view(r@)) == spec_created(
                        old(self)@,
                        old(channels)@,
                        device,
                        final(self)@.pair_code->0,
                        final(self)@.pair_tx->0,
                    )
                },
                None => (final(self)@, final(channels)@, actions_view(r@)) == spec_before_pair(old(self)@, old(channels)@, message@),
            },
    {
        let ghost c = self@;
        let ghost ch = channels@;
        let ghost m = message@;
        match message {
            Message::PairRequestMessage(pair_code, device, create) => {
                let mut acts: Vec<Action> = Vec::new();
                match channels.get_pair_channel(pair_code.as_str(), &device) {
                    None => {
                        assert(channels@ == ch);
                        if create {
                            return self.create_group(device, channels);
                        }
                        let first = Action::SendSocket(Message::NoPairDeviceResponseMessage());
                        acts.push(first);
                        let mut more = self.start_work(channels);
                        let ghost more_seq = more@;
                        acts.append(&mut more);
                        proof {
                            lemma_actions_concat(seq![first], more_seq);
                            assert(seq![first] + more_seq =~= acts@);
                        }
                        acts
                    },
                    Some((tx, devices)) => {
                        let ghost dv = devices_view(devices@);
                        let a1 = Action::SendSocket(Message::PairDeviceInfosResponseMessage(devices));
                        acts.push(a1);
                        let device_copy = device.clone();
                        self.pair_code = Some(pair_code);
                        self.device_info = Some(device_copy);
                        let a2 = Action::Broadcast(tx.clone(), Message::DeviceChangeResponseMessage(true, device));
                        acts.push(a2);
                        assert(actions_view(acts@) =~= seq![a1@, a2@]);
                        self.set_pair_channel(tx, channels, &mut acts);
                        assert(actions_view(acts@) =~= spec_before_pair(c, ch, m).2);
                        acts
                    },
                }
            },
            Message::PairCreateMessage(device) => self.create_group(device, channels),
            Message::CloseMessage() => self.shut_down(channels),
            Message::WorkErrorMessage() => self.shut_down(channels),
            _ => self.start_work(channels),
        }
    }

    /// Creates a pair group for `device` under a fresh code and joins it.
    fn create_group(&mut self, device: DeviceInfo, channels: &mut ChannelManage) -> (r: Vec<Action>)
        requires
            old(channels).wf(),
            old(channels)@.pairs.dom().len() < MAX_PAIR_GROUPS,
        ensures
            final(channels).wf(),
            final(self)@.pair_code is Some,
            final(self)@.pair_tx is Some,
            fresh_group(old(channels)@, final(self)@.pair_code->0, final(self)@.pair_tx->0),
            (final(self)@, final(channels)@, actions_view(r@)) == spec_created(
                old(self)@,
                old(channels)@,
                device@,
                final(self)@.pair_code->0,
                final(self)@.pair_tx->0,
            ),
    {
        let ghost c = self@;
        let ghost ch = channels@;
        let ghost dv = device@;
        let mut acts: Vec<Action> = Vec::new();
        let (tx, pair_code) = channels.add_pair_channel(device.clone());
        let a1 = Action::SendSocket(Message::PairCodeResponseMessage(pair_code.clone()));
        acts.push(a1);
        self.pair_code = Some(pair_code);
        self.device_info = Some(device);
        assert(actions_view(acts@) =~= seq![a1@]);
        self.set_pair_channel(tx, channels, &mut acts);
        assert(actions_view(acts@) =~= spec_created(c, ch, dv, self@.pair_code->0, self@.pair_tx->0).2);
        acts
    }

    /// A paired session's answer to a message from its client or from
    /// another connection.
    fn handle_paired_message(&mut self, message: Message, channels: &mut ChannelManage) -> (r: Vec<Action>)
        requires
            old(channels).wf(),
            message@ == MessageView::RemovePairRequest(old(self)@.addr) ==> old(self)@.count < i32::MAX,
        ensures
            final(channels).wf(),
            (final(self)@, final(channels)@, actions_view(r@)) == spec_paired_message(old(self)@, old(channels)@, message@),
    {
        let ghost c = self@;
        let ghost ch = channels@;
        let ghost m = message@;
        match message {
            Message::HeartPackageMessage() => {
                let mut acts = Vec::new();
                acts.push(Action::SendSocket(Message::HeartPackageMessage()));
                assert(actions_view(acts@) =~= spec_paired_message(c, ch, m).2);
                acts
            },
            Message::ClipboardMessage(content) => {
                let mut acts = Vec::new();
                self.broadcast_message(Message::ClipboardMessage(content), &mut acts);
                assert(actions_view(acts@) =~= spec_paired_message(c, ch, m).2);
                acts
            },
            Message::RemovePairRequestMessage(addr) => {
                if addr == self.socket_addr {
                    let mut acts = self.clear_pair_state(channels);
                    let ghost acts1 = acts@;
                    let a = Action::SendSocket(Message::RemovePairResponseMessage());
                    acts.push(a);
                    let mut more = self.start_work(channels);
                    let ghost acts2 = more@;
                    acts.append(&mut more);
                    proof {
                        lemma_actions_concat(acts1.push(a), acts2);
                        lemma_actions_push(acts1, a);
                        assert(acts@ =~= acts1.push(a) + acts2);
                        assert(actions_view(acts@) =~= actions_view(acts1) + seq![a@] + actions_view(acts2));
                    }
                    acts
                } else {
                    let mut acts = Vec::new();
                    match channels.get_stream_channel(addr) {
                        Some(tx) => {
                            acts.push(Action::Forward(tx, Message::RemovePairRequestMessage(addr)));
                        },
                        None => {},
                    }
                    assert(actions_view(acts@) =~= spec_paired_message(c, ch, m).2);
                    acts
                }
            },
            Message::CloseMessage() => self.shut_down(channels),
            _ => {
                let acts = Vec::new();
                assert(actions_view(acts@) =~= Seq::empty());
                acts
            },
        }
    }
}

} // verus!

verus! {

impl Context {
    /// Takes one event: works out the session's and the registry's next state
    /// and the actions that the surroundings are to perform, in order.
    pub fn handle_event(&mut self, event: Event, channels: &mut ChannelManage) -> (r: Vec<Action>)
        requires
            old(channels).wf(),
            counts_attempt(old(self)@, old(channels)@, event@) ==> old(self)@.count < i32::MAX,
            creates_group(old(self)@, old(channels)@, event@) ==> old(channels)@.pairs.dom().len() < MAX_PAIR_GROUPS,
        ensures
            final(channels).wf(),
            step_rel(old(self)@, old(channels)@, event@, final(self)@, final(channels)@, actions_view(r@)),
    {
        let ghost c = self@;
        let ghost ch = channels@;
        let ghost e = event@;
        match self.phase {
            Phase::Listening => {
                let message = match event {
                    Event::Socket(m) => m,
                    Event::SocketEnded => Message::WorkErrorMessage(),
                    Event::Timeout => Message::WorkErrorMessage(),
                    _ => {
                        let acts = Vec::new();
                        assert(actions_view(acts@) =~= Seq::empty());
                        return acts;
                    },
                };
                assert(listening_message(e) == Some(message@));
                match message {
                    Message::HeartPackageMessage() => {
                        let mut acts = Vec::new();
                        acts.push(Action::SendSocket(Message::HeartPackageMessage()));
                        assert(actions_view(acts@) =~= seq![ActionView::SendSocket(MessageView::HeartPackage)]);
                        acts
                    },
                    Message::ClipboardMessage(_) => {
                        let acts = Vec::new();
                        assert(actions_view(acts@) =~= Seq::empty());
                        acts
                    },
                    Message::RemovePairRequestMessage(_) => {
                        let acts = Vec::new();
                        assert(actions_view(acts@) =~= Seq::empty());
                        acts
                    },
                    other => self.handle_before_pair_message(other, channels),
                }
            },
            Phase::Paired => match event {
                Event::PairChannel(message, from) => {
                    let mut acts = Vec::new();
                    if from != self.socket_addr {
                        match message {
                            Message::ClipboardMessage(_) | Message::DeviceChangeResponseMessage(_, _) => {
                                acts.push(Action::SendSocket(message));
                            },
                            _ => {},
                        }
                    }
                    assert(actions_view(acts@) =~= spec_step(c, ch, e).2);
                    acts
                },
                Event::PairChannelError => {
                    let acts = Vec::new();
                    assert(actions_view(acts@) =~= Seq::empty());
                    acts
                },
                Event::StreamChannel(message) => self.handle_paired_message(message, channels),
                Event::StreamChannelClosed => {
                    self.phase = Phase::Closed;
                    let mut acts = Vec::new();
                    acts.push(Action::Stop);
                    assert(actions_view(acts@) =~= seq![ActionView::Stop]);
                    acts
                },
                Event::Socket(message) => self.handle_paired_message(message, channels),
                Event::SocketEnded => self.shut_down(channels),
                Event::Timeout => self.shut_down(channels),
            },
            Phase::Closed => {
                let acts = Vec::new();
                assert(actions_view(acts@) =~= Seq::empty());
                acts
            },
        }
    }
}

} // verus!

verus! {

/// What reading a frame from the start of a buffer gives: its length and
/// content when it is complete, nothing when more bytes are needed, or the
/// error.
pub open spec fn spec_parse(s: Seq<u8>) -> AppResult<Option<(usize, Seq<u8>)>> {
    let (res, pos) = check_frame(s, 0);
    match res {
        Ok(()) => Ok(Some((pos as usize, decoded_content(s, 0)))),
        Err(AppError::IncompleteError) => Ok(None),
        Err(e) => Err(e),
    }
}

/// A complete frame whose content cannot be taken out of the buffer: its
/// length field is negative.
pub open spec fn parse_fails_hard(s: Seq<u8>) -> bool {
    check_frame(s, 0).0 is Ok && !decodable(s, 0)
}

impl Context {
    /// Whether `parse_message` has no answer for `buffer`: the frame at its
    /// start is complete but its content cannot be taken out.
    pub fn parse_would_panic(buffer: &[u8]) -> (r: bool)
        ensures
            r == parse_fails_hard(buffer@),
    {
        let mut buf = FrameCursor::new(buffer);
        match Message::check_entire_message(&mut buf) {
            Ok(_) => !Message::frame_is_decodable(buffer),
            Err(_) => false,
        }
    }

    /// Reads a frame from the start of `buffer`: its total length and its
    /// content when it is complete, `None` when more bytes are needed.
    pub fn parse_message(buffer: &[u8]) -> (r: AppResult<Option<(usize, &[u8])>>)
        requires
            !parse_fails_hard(buffer@),
        ensures
            match (r, spec_parse(buffer@)) {
                (Ok(Some((n, content))), Ok(Some((m, expected)))) => n == m && content@ == expected,
                (Ok(None), Ok(None)) => true,
                (Err(e1), Err(e2)) => e1 == e2,
                _ => false,
            },
    {
        let mut buf = FrameCursor::new(buffer);
        match Message::check_entire_message(&mut buf) {
            Ok(_) => {
                let len = buf.position();
                buf.set_position(0);
                let content = Message::decode(&mut buf);
                Ok(Some((len as usize, content)))
            },
            Err(AppError::IncompleteError) => Ok(None),
            Err(e) => Err(e),
        }
    }
}

} // verus!

verus! {

/// Reading back an encoded frame gives its length and the framed content,
/// whatever bytes follow it, where the buffer's length fits in an `i32`.
pub proof fn law_parse_encoded_frame(m: MessageView, content: Seq<u8>, extra: Seq<u8>)
    requires
        5 + content.len() + extra.len() <= i32::MAX,
    ensures
        !parse_fails_hard(frame_bytes(type_id_of(m), content) + extra),
        spec_parse(frame_bytes(type_id_of(m), content) + extra) == Ok::<Option<(usize, Seq<u8>)>, AppError>(
            Some(((5 + content.len()) as usize, content)),
        ),
{
    law_frame_roundtrip(type_id_of(m), content, extra);
}

} // verus!
