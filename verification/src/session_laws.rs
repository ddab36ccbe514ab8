//! What holds of every step of a session, stated over the step relation that
//! `Context::handle_event` ensures.
use vstd::prelude::*;
use crate::channel_manage::{law_leave_removes_device, pairs_after_leave, ChannelsView, PairGroup};
use crate::handler::{
    context_wf, spec_clear_pair_state, step_rel, ActionView, ContextView, EventView, Phase, MAX_ATTEMPTS,
};
use crate::message::{DeviceView, MessageView, PeerAddr};
use crate::utils::is_pair_code;

verus! {

/// Every step keeps the session's invariant: a paired session knows its
/// group, and a session with a pair code knows the group's channel and its
/// own device.
pub proof fn law_step_keeps_context_wf(
    c: ContextView,
    ch: ChannelsView,
    e: EventView,
    c2: ContextView,
    ch2: ChannelsView,
    acts: Seq<ActionView>,
)
    requires
        context_wf(c),
        step_rel(c, ch, e, c2, ch2, acts),
    ensures
        context_wf(c2),
{
}

/// A heartbeat from the client is answered with a heartbeat, whether the
/// session is listening or paired, and nothing else changes.
pub proof fn law_heartbeat_answered(
    c: ContextView,
    ch: ChannelsView,
    c2: ContextView,
    ch2: ChannelsView,
    acts: Seq<ActionView>,
)
    requires
        c.phase != Phase::Closed,
        step_rel(c, ch, EventView::Socket(MessageView::HeartPackage), c2, ch2, acts),
    ensures
        acts == seq![ActionView::SendSocket(MessageView::HeartPackage)],
        c2 == c,
        ch2 == ch,
{
}

/// A message that this connection broadcast itself is never sent back to its
/// client.
pub proof fn law_no_echo(
    c: ContextView,
    ch: ChannelsView,
    m: MessageView,
    c2: ContextView,
    ch2: ChannelsView,
    acts: Seq<ActionView>,
)
    requires
        c.phase == Phase::Paired,
        step_rel(c, ch, EventView::PairChannel(m, c.addr), c2, ch2, acts),
    ensures
        acts == Seq::<ActionView>::empty(),
        c2 == c,
        ch2 == ch,
{
}

/// Clipboard content and device changes that another member of the group
/// broadcast reach this connection's client unchanged; other broadcasts do not.
pub proof fn law_group_messages_relayed(
    c: ContextView,
    ch: ChannelsView,
    m: MessageView,
    from: PeerAddr,
    c2: ContextView,
    ch2: ChannelsView,
    acts: Seq<ActionView>,
)
    requires
        c.phase == Phase::Paired,
        from != c.addr,
        step_rel(c, ch, EventView::PairChannel(m, from), c2, ch2, acts),
    ensures
        (m is Clipboard || m is DeviceChangeResponse) ==> acts == seq![ActionView::SendSocket(m)],
        !(m is Clipboard || m is DeviceChangeResponse) ==> acts == Seq::<ActionView>::empty(),
        c2 == c,
        ch2 == ch,
{
}

/// Clipboard content from a paired client goes to its whole group.
pub proof fn law_clipboard_broadcast(
    c: ContextView,
    ch: ChannelsView,
    content: Seq<char>,
    c2: ContextView,
    ch2: ChannelsView,
    acts: Seq<ActionView>,
)
    requires
        context_wf(c),
        c.phase == Phase::Paired,
        step_rel(c, ch, EventView::Socket(MessageView::Clipboard(content)), c2, ch2, acts),
    ensures
        acts == seq![ActionView::Broadcast(c.pair_tx->0, MessageView::Clipboard(content))],
        c2 == c,
        ch2 == ch,
{
}

/// A request with a known pair code joins its group: the device is added to
/// the group, the client gets the group's devices, the group hears that the
/// device joined, and the session is paired under that code.
pub proof fn law_join_known_code(
    c: ContextView,
    ch: ChannelsView,
    code: Seq<char>,
    device: DeviceView,
    create: bool,
    c2: ContextView,
    ch2: ChannelsView,
    acts: Seq<ActionView>,
)
    requires
        c.phase == Phase::Listening,
        ch.pairs.dom().contains(code),
        step_rel(c, ch, EventView::Socket(MessageView::PairRequest(code, device, create)), c2, ch2, acts),
    ensures
        c2.phase == Phase::Paired,
        c2.pair_code == Some(code),
        c2.pair_tx == Some(ch.pairs[code].tx),
        c2.device == Some(device),
        c2.count == c.count,
        c2.addr == c.addr,
        acts.len() == 3,
        acts[2] == ActionView::ListenPaired(
            ch.pairs[code].tx,
            if ch.streams.dom().contains(c.addr) { Some(ch.streams[c.addr]) } else { None },
        ),
        ch2.pairs == ch.pairs.insert(code, PairGroup { tx: ch.pairs[code].tx, devices: ch.pairs[code].devices.push(device) }),
        ch2.streams == ch.streams,
        acts[0] == ActionView::SendSocket(MessageView::PairDeviceInfosResponse(ch.pairs[code].devices.push(device))),
        acts[1] == ActionView::Broadcast(ch.pairs[code].tx, MessageView::DeviceChangeResponse(true, device)),
{
}

/// A request with an unknown pair code that does not ask for the group to be
/// created is refused, and the pair groups stay as they were; below the
/// attempt limit nothing else changes but the count.
pub proof fn law_unknown_code_refused(
    c: ContextView,
    ch: ChannelsView,
    code: Seq<char>,
    device: DeviceView,
    c2: ContextView,
    ch2: ChannelsView,
    acts: Seq<ActionView>,
)
    requires
        c.phase == Phase::Listening,
        c.count < i32::MAX,
        c.pair_code is None,
        !ch.pairs.dom().contains(code),
        step_rel(c, ch, EventView::Socket(MessageView::PairRequest(code, device, false)), c2, ch2, acts),
    ensures
        acts[0] == ActionView::SendSocket(MessageView::NoPairDeviceResponse),
        ch2.pairs == ch.pairs,
        c2.count == c.count + 1,
        c.count + 1 <= MAX_ATTEMPTS ==> acts == seq![ActionView::SendSocket(MessageView::NoPairDeviceResponse)] && ch2 == ch
            && c2.phase == Phase::Listening,
        c.count + 1 > MAX_ATTEMPTS ==> c2.phase == Phase::Closed && acts.last() == ActionView::Stop
            && !ch2.streams.dom().contains(c.addr),
{
    assert(acts =~= seq![ActionView::SendSocket(MessageView::NoPairDeviceResponse)] + acts.subrange(1, acts.len() as int));
}

/// Creating a group gives it a fresh pair code, a channel that no other group
/// has, and this device alone, and tells the client the code.
pub proof fn law_create_group(
    c: ContextView,
    ch: ChannelsView,
    device: DeviceView,
    c2: ContextView,
    ch2: ChannelsView,
    acts: Seq<ActionView>,
)
    requires
        c.phase == Phase::Listening,
        step_rel(c, ch, EventView::Socket(MessageView::PairCreate(device)), c2, ch2, acts),
    ensures
        c2.phase == Phase::Paired,
        c2.pair_code is Some,
        is_pair_code(c2.pair_code->0),
        !ch.pairs.dom().contains(c2.pair_code->0),
        forall|k: Seq<char>| #[trigger] ch.pairs.dom().contains(k) ==> ch.pairs[k].tx != c2.pair_tx->0,
        ch2.pairs == ch.pairs.insert(c2.pair_code->0, PairGroup { tx: c2.pair_tx->0, devices: seq![device] }),
        ch2.streams == ch.streams,
        acts[0] == ActionView::SendSocket(MessageView::PairCodeResponse(c2.pair_code->0)),
{
}

/// A client that asks to leave its group, or whose removal another device of
/// the group asks for (the request reaches it on its own channel), is taken
/// out of the group: the group no longer lists the device and goes away when
/// no other device is left, other groups stay as they were, the group hears
/// that the device left, the client is told it was removed, and the session
/// listens for pairing requests again.
pub proof fn law_leave_group(
    c: ContextView,
    ch: ChannelsView,
    e: EventView,
    c2: ContextView,
    ch2: ChannelsView,
    acts: Seq<ActionView>,
)
    requires
        context_wf(c),
        c.phase == Phase::Paired,
        c.count + 1 <= MAX_ATTEMPTS,
        e == EventView::Socket(MessageView::RemovePairRequest(c.addr))
            || e == EventView::StreamChannel(MessageView::RemovePairRequest(c.addr)),
        step_rel(c, ch, e, c2, ch2, acts),
    ensures
        c2.phase == Phase::Listening,
        c2.pair_code is None,
        c2.count == c.count + 1,
        ch2.pairs == pairs_after_leave(ch.pairs, c.pair_code->0, c.device->0),
        ch2.pairs.dom().contains(c.pair_code->0) ==> !ch2.pairs[c.pair_code->0].devices.contains(c.device->0)
            && ch2.pairs[c.pair_code->0].tx == ch.pairs[c.pair_code->0].tx,
        ch.pairs.dom().contains(c.pair_code->0) ==> (ch2.pairs.dom().contains(c.pair_code->0) <==> (exists|i: int|
            0 <= i < ch.pairs[c.pair_code->0].devices.len() && ch.pairs[c.pair_code->0].devices[i] != c.device->0)),
        forall|k: Seq<char>| k != c.pair_code->0 ==> {
            &&& (ch2.pairs.dom().contains(k) <==> ch.pairs.dom().contains(k))
            &&& (ch.pairs.dom().contains(k) ==> ch2.pairs[k] == ch.pairs[k])
        },
        ch2.streams == ch.streams,
        acts == seq![
            ActionView::Broadcast(c.pair_tx->0, MessageView::DeviceChangeResponse(false, c.device->0)),
            ActionView::SendSocket(MessageView::RemovePairResponse),
        ],
{
    let (c1, ch1, acts1) = spec_clear_pair_state(c, ch);
    assert(acts1 == seq![ActionView::Broadcast(c.pair_tx->0, MessageView::DeviceChangeResponse(false, c.device->0))]);
    assert(acts =~= acts1 + seq![ActionView::SendSocket(MessageView::RemovePairResponse)] + Seq::<ActionView>::empty());
    lemma_leave_facts(ch.pairs, c.pair_code->0, c.device->0);
}

/// What leaving a group does to the groups, spelled out.
proof fn lemma_leave_facts(pairs: Map<Seq<char>, PairGroup>, code: Seq<char>, device: DeviceView)
    ensures
        pairs_after_leave(pairs, code, device).dom().contains(code) ==> !pairs_after_leave(pairs, code, device)[code].devices.contains(device)
            && pairs_after_leave(pairs, code, device)[code].tx == pairs[code].tx,
        pairs.dom().contains(code) ==> (pairs_after_leave(pairs, code, device).dom().contains(code) <==> (exists|i: int|
            0 <= i < pairs[code].devices.len() && pairs[code].devices[i] != device)),
        forall|k: Seq<char>| k != code ==> {
            &&& (pairs_after_leave(pairs, code, device).dom().contains(k) <==> pairs.dom().contains(k))
            &&& (pairs.dom().contains(k) ==> pairs_after_leave(pairs, code, device)[k] == pairs[k])
        },
{
    if pairs.dom().contains(code) {
        law_leave_removes_device(pairs, code, device);
    }
}

/// When the client's socket ends, the liveness timer fires, or the client
/// (or, while paired, another connection) sends a close message, the session
/// ends: a paired device leaves its group and the group hears that it left,
/// the connection's channel leaves the registry, and the last action is to
/// stop. A session with no pair code touches no group and only stops.
pub proof fn law_disconnect_on_end(
    c: ContextView,
    ch: ChannelsView,
    e: EventView,
    c2: ContextView,
    ch2: ChannelsView,
    acts: Seq<ActionView>,
)
    requires
        context_wf(c),
        c.phase != Phase::Closed,
        e is SocketEnded || e is Timeout || e == EventView::Socket(MessageView::Close)
            || (c.phase == Phase::Paired && e == EventView::StreamChannel(MessageView::Close))
            || (c.phase == Phase::Listening && e == EventView::Socket(MessageView::WorkError)),
        step_rel(c, ch, e, c2, ch2, acts),
    ensures
        c2.phase == Phase::Closed,
        c2.pair_code is None,
        ch2.streams == ch.streams.remove(c.addr),
        c.pair_code is Some ==> ch2.pairs == pairs_after_leave(ch.pairs, c.pair_code->0, c.device->0),
        c.pair_code is Some && ch2.pairs.dom().contains(c.pair_code->0) ==> !ch2.pairs[c.pair_code->0].devices.contains(
            c.device->0,
        ),
        c.pair_code is Some ==> forall|k: Seq<char>| k != c.pair_code->0 ==> {
            &&& (ch2.pairs.dom().contains(k) <==> ch.pairs.dom().contains(k))
            &&& (ch.pairs.dom().contains(k) ==> ch2.pairs[k] == ch.pairs[k])
        },
        c.pair_code is None ==> ch2.pairs == ch.pairs,
        acts == (if c.pair_code is Some {
            seq![
                ActionView::Broadcast(c.pair_tx->0, MessageView::DeviceChangeResponse(false, c.device->0)),
                ActionView::Stop,
            ]
        } else {
            seq![ActionView::Stop]
        }),
{
    if c.pair_code is Some {
        lemma_leave_facts(ch.pairs, c.pair_code->0, c.device->0);
        assert(acts =~= seq![
            ActionView::Broadcast(c.pair_tx->0, MessageView::DeviceChangeResponse(false, c.device->0)),
            ActionView::Stop,
        ]);
    } else {
        assert(acts =~= seq![ActionView::Stop]);
    }
}

/// To a paired session, a message that another connection sends over its own
/// channel means what it means from the client: both steps give the same
/// session, registry and actions.
pub proof fn law_stream_channel_as_client(
    c: ContextView,
    ch: ChannelsView,
    m: MessageView,
    c2: ContextView,
    ch2: ChannelsView,
    acts: Seq<ActionView>,
    c3: ContextView,
    ch3: ChannelsView,
    acts3: Seq<ActionView>,
)
    requires
        c.phase == Phase::Paired,
        step_rel(c, ch, EventView::StreamChannel(m), c2, ch2, acts),
        step_rel(c, ch, EventView::Socket(m), c3, ch3, acts3),
    ensures
        c2 == c3,
        ch2 == ch3,
        acts == acts3,
{
}

/// A closed session ignores every event.
pub proof fn law_closed_is_inert(
    c: ContextView,
    ch: ChannelsView,
    e: EventView,
    c2: ContextView,
    ch2: ChannelsView,
    acts: Seq<ActionView>,
)
    requires
        c.phase == Phase::Closed,
        step_rel(c, ch, e, c2, ch2, acts),
    ensures
        c2 == c,
        ch2 == ch,
        acts == Seq::<ActionView>::empty(),
{
}

/// Past the attempt limit, a session that would go back to listening is
/// disconnected instead: it leaves the registry and its group, and ends.
pub proof fn law_too_many_attempts(
    c: ContextView,
    ch: ChannelsView,
    m: MessageView,
    c2: ContextView,
    ch2: ChannelsView,
    acts: Seq<ActionView>,
)
    requires
        c.phase == Phase::Listening,
        c.count >= MAX_ATTEMPTS,
        c.count < i32::MAX,
        m is PairDeviceInfosResponse || m is PairCodeResponse || m is ServerReadyResponse || m is NoPairDeviceResponse
            || m is RemovePairResponse || m is DeviceChangeResponse,
        step_rel(c, ch, EventView::Socket(m), c2, ch2, acts),
    ensures
        !ch2.streams.dom().contains(c.addr),
        c2.phase == Phase::Closed,
        c2.pair_code is None,
        c.pair_code is Some && c.device is Some ==> ch2.pairs == pairs_after_leave(ch.pairs, c.pair_code->0, c.device->0),
        acts.len() > 0 && acts.last() == ActionView::Stop,
{
}

} // verus!

verus! {

/// A session that is not paired ignores clipboard content and removal
/// requests from its client.
pub proof fn law_listening_ignores_group_traffic(
    c: ContextView,
    ch: ChannelsView,
    m: MessageView,
    c2: ContextView,
    ch2: ChannelsView,
    acts: Seq<ActionView>,
)
    requires
        c.phase == Phase::Listening,
        m is Clipboard || m is RemovePairRequest,
        step_rel(c, ch, EventView::Socket(m), c2, ch2, acts),
    ensures
        acts == Seq::<ActionView>::empty(),
        c2 == c,
        ch2 == ch,
{
}

} // verus!

verus! {

/// A request with an unknown pair code that asks for the group to be created
/// creates a group for the device, under a fresh pair code and a channel that
/// no other group has, and tells the client the code.
pub proof fn law_create_on_unknown_code(
    c: ContextView,
    ch: ChannelsView,
    code: Seq<char>,
    device: DeviceView,
    c2: ContextView,
    ch2: ChannelsView,
    acts: Seq<ActionView>,
)
    requires
        c.phase == Phase::Listening,
        !ch.pairs.dom().contains(code),
        step_rel(c, ch, EventView::Socket(MessageView::PairRequest(code, device, true)), c2, ch2, acts),
    ensures
        c2.phase == Phase::Paired,
        c2.pair_code is Some,
        c2.device == Some(device),
        is_pair_code(c2.pair_code->0),
        !ch.pairs.dom().contains(c2.pair_code->0),
        forall|k: Seq<char>| #[trigger] ch.pairs.dom().contains(k) ==> ch.pairs[k].tx != c2.pair_tx->0,
        ch2.pairs == ch.pairs.insert(c2.pair_code->0, PairGroup { tx: c2.pair_tx->0, devices: seq![device] }),
        ch2.streams == ch.streams,
        acts[0] == ActionView::SendSocket(MessageView::PairCodeResponse(c2.pair_code->0)),
{
}

} // verus!
