use clipboard_sync::channel_manage::ChannelManage;
use clipboard_sync::handler::{Action, Context, Event, Phase, MAX_ATTEMPTS};
use clipboard_sync::message::{DeviceInfo, Message, PeerAddr};
use tokio::sync::broadcast;

fn addr(port: u16) -> PeerAddr {
    PeerAddr::v4(127, 0, 0, 1, port)
}

fn device(port: u16, name: &str) -> DeviceInfo {
    DeviceInfo::new(addr(port), name.to_string())
}

fn registered(channels: &mut ChannelManage, port: u16) -> broadcast::Sender<Message> {
    let (tx, _) = broadcast::channel::<Message>(64);
    channels.add_stream_channel(addr(port), tx.clone());
    tx
}

fn create_group(channels: &mut ChannelManage, port: u16) -> (Context, String) {
    let mut context = Context::new(addr(port));
    let _ = context.start_work(channels);
    let acts = context.handle_event(Event::Socket(Message::PairCreateMessage(device(port, "creator"))), channels);
    let code = match &acts[0] {
        Action::SendSocket(Message::PairCodeResponseMessage(code)) => code.clone(),
        other => panic!("unexpected {:?}", other),
    };
    assert!(matches!(acts[1], Action::ListenPaired(_, Some(_))));
    (context, code)
}

#[test]
fn ready_message_carries_the_address() {
    let context = Context::new(addr(7));
    let acts = context.send_ready();
    assert_eq!(acts.len(), 1);
    assert!(matches!(acts[0], Action::SendSocket(Message::ServerReadyResponseMessage(a)) if a == addr(7)));
}

#[test]
fn heartbeat_is_answered_in_both_phases() {
    let mut channels = ChannelManage::new();
    registered(&mut channels, 1);
    let mut context = Context::new(addr(1));
    let _ = context.start_work(&mut channels);
    let acts = context.handle_event(Event::Socket(Message::HeartPackageMessage()), &mut channels);
    assert_eq!(acts.len(), 1);
    assert!(matches!(acts[0], Action::SendSocket(Message::HeartPackageMessage())));
    let (mut paired, _) = create_group(&mut channels, 1);
    let acts = paired.handle_event(Event::Socket(Message::HeartPackageMessage()), &mut channels);
    assert_eq!(acts.len(), 1);
    assert!(matches!(acts[0], Action::SendSocket(Message::HeartPackageMessage())));
}

#[test]
fn create_then_join_group() {
    let mut channels = ChannelManage::new();
    registered(&mut channels, 1);
    registered(&mut channels, 2);
    let (creator, code) = create_group(&mut channels, 1);
    assert_eq!(code.len(), 6);
    assert_eq!(creator.pair_code().unwrap(), &code);
    assert_eq!(channels.get_pair_num(), 1);

    let mut joiner = Context::new(addr(2));
    let _ = joiner.start_work(&mut channels);
    let acts = joiner.handle_event(
        Event::Socket(Message::PairRequestMessage(code.clone(), device(2, "joiner"), false)),
        &mut channels,
    );
    assert_eq!(acts.len(), 3);
    match &acts[0] {
        Action::SendSocket(Message::PairDeviceInfosResponseMessage(devices)) => {
            assert_eq!(devices.len(), 2);
            assert_eq!(devices[0].device_name(), "creator");
            assert_eq!(devices[1].device_name(), "joiner");
        }
        other => panic!("unexpected {:?}", other),
    }
    assert!(matches!(&acts[1], Action::Broadcast(_, Message::DeviceChangeResponseMessage(true, d)) if d.device_name() == "joiner"));
    assert!(matches!(acts[2], Action::ListenPaired(_, Some(_))));
    assert_eq!(joiner.phase(), Phase::Paired);
}

#[test]
fn unknown_code_is_refused() {
    let mut channels = ChannelManage::new();
    registered(&mut channels, 2);
    let mut context = Context::new(addr(2));
    let _ = context.start_work(&mut channels);
    let acts = context.handle_event(
        Event::Socket(Message::PairRequestMessage("123456".to_string(), device(2, "d"), false)),
        &mut channels,
    );
    assert_eq!(acts.len(), 1);
    assert!(matches!(acts[0], Action::SendSocket(Message::NoPairDeviceResponseMessage())));
    assert_eq!(context.phase(), Phase::Listening);
    assert_eq!(context.count(), 2);
    assert_eq!(channels.get_pair_num(), 0);
}

#[test]
fn own_broadcast_is_not_echoed() {
    let mut channels = ChannelManage::new();
    registered(&mut channels, 1);
    let (mut context, _) = create_group(&mut channels, 1);
    let acts = context.handle_event(Event::PairChannel(Message::ClipboardMessage("x".into()), addr(1)), &mut channels);
    assert!(acts.is_empty());
    let acts = context.handle_event(Event::PairChannel(Message::HeartPackageMessage(), addr(2)), &mut channels);
    assert!(acts.is_empty());
}

#[test]
fn clipboard_goes_to_the_group() {
    let mut channels = ChannelManage::new();
    registered(&mut channels, 1);
    let (mut context, _) = create_group(&mut channels, 1);
    let acts = context.handle_event(Event::Socket(Message::ClipboardMessage("hello".into())), &mut channels);
    assert_eq!(acts.len(), 1);
    match &acts[0] {
        Action::Broadcast(tx, Message::ClipboardMessage(s)) => {
            assert_eq!(s, "hello");
            let mut rx = tx.subscribe();
            tx.send((Message::ClipboardMessage("again".into()), addr(1))).unwrap();
            assert!(matches!(rx.try_recv(), Ok((Message::ClipboardMessage(_), _))));
        }
        other => panic!("unexpected {:?}", other),
    }
}

#[test]
fn leaving_the_group_returns_to_listening() {
    let mut channels = ChannelManage::new();
    registered(&mut channels, 1);
    let (mut context, code) = create_group(&mut channels, 1);
    let acts = context.handle_event(Event::Socket(Message::RemovePairRequestMessage(addr(1))), &mut channels);
    assert_eq!(acts.len(), 2);
    assert!(matches!(&acts[0], Action::Broadcast(_, Message::DeviceChangeResponseMessage(false, _))));
    assert!(matches!(acts[1], Action::SendSocket(Message::RemovePairResponseMessage())));
    assert_eq!(context.phase(), Phase::Listening);
    assert!(context.pair_code().is_none());
    assert_eq!(channels.get_pair_num(), 0);
    let mut other = Context::new(addr(3));
    let _ = other.start_work(&mut channels);
    let acts = other.handle_event(
        Event::Socket(Message::PairRequestMessage(code, device(3, "late"), false)),
        &mut channels,
    );
    assert!(matches!(acts[0], Action::SendSocket(Message::NoPairDeviceResponseMessage())));
}

#[test]
fn removal_of_another_device_is_forwarded() {
    let mut channels = ChannelManage::new();
    registered(&mut channels, 1);
    let target = registered(&mut channels, 2);
    let (mut context, _) = create_group(&mut channels, 1);
    let acts = context.handle_event(Event::Socket(Message::RemovePairRequestMessage(addr(2))), &mut channels);
    assert_eq!(acts.len(), 1);
    match &acts[0] {
        Action::Forward(tx, Message::RemovePairRequestMessage(a)) => {
            assert_eq!(*a, addr(2));
            let mut rx = target.subscribe();
            tx.send(Message::CloseMessage()).unwrap();
            assert!(matches!(rx.try_recv(), Ok(Message::CloseMessage())));
        }
        other => panic!("unexpected {:?}", other),
    }
    let acts = context.handle_event(Event::Socket(Message::RemovePairRequestMessage(addr(9))), &mut channels);
    assert!(acts.is_empty());
}

#[test]
fn socket_end_disconnects() {
    let mut channels = ChannelManage::new();
    registered(&mut channels, 1);
    let (mut context, _) = create_group(&mut channels, 1);
    let acts = context.handle_event(Event::SocketEnded, &mut channels);
    assert!(matches!(acts.last(), Some(Action::Stop)));
    assert_eq!(context.phase(), Phase::Closed);
    assert_eq!(channels.get_socket_num(), 0);
    assert_eq!(channels.get_pair_num(), 0);
    let acts = context.handle_event(Event::Socket(Message::HeartPackageMessage()), &mut channels);
    assert!(acts.is_empty());
}

#[test]
fn timeout_and_close_end_a_listening_session() {
    let mut channels = ChannelManage::new();
    registered(&mut channels, 1);
    let mut context = Context::new(addr(1));
    let _ = context.start_work(&mut channels);
    let acts = context.handle_event(Event::Timeout, &mut channels);
    assert_eq!(acts.len(), 1);
    assert!(matches!(acts[0], Action::Stop));
    assert_eq!(channels.get_socket_num(), 0);

    registered(&mut channels, 2);
    let mut other = Context::new(addr(2));
    let _ = other.start_work(&mut channels);
    let acts = other.handle_event(Event::Socket(Message::CloseMessage()), &mut channels);
    assert!(matches!(acts[0], Action::Stop));
    assert_eq!(other.phase(), Phase::Closed);
}

#[test]
fn listening_ignores_clipboard_and_removal() {
    let mut channels = ChannelManage::new();
    registered(&mut channels, 1);
    let mut context = Context::new(addr(1));
    let _ = context.start_work(&mut channels);
    assert!(context.handle_event(Event::Socket(Message::ClipboardMessage("c".into())), &mut channels).is_empty());
    assert!(context.handle_event(Event::Socket(Message::RemovePairRequestMessage(addr(1))), &mut channels).is_empty());
    assert_eq!(context.count(), 1);
    let acts = context.handle_event(Event::Socket(Message::RemovePairResponseMessage()), &mut channels);
    assert!(acts.is_empty());
    assert_eq!(context.count(), 2);
}

#[test]
fn too_many_attempts_drop_the_connection() {
    let mut channels = ChannelManage::new();
    registered(&mut channels, 1);
    let mut context = Context::new(addr(1));
    let _ = context.start_work(&mut channels);
    for _ in 1..MAX_ATTEMPTS {
        let _ = context.handle_event(Event::Socket(Message::NoPairDeviceResponseMessage()), &mut channels);
    }
    assert_eq!(context.count(), MAX_ATTEMPTS);
    assert_eq!(channels.get_socket_num(), 1);
    let acts = context.handle_event(Event::Socket(Message::NoPairDeviceResponseMessage()), &mut channels);
    assert_eq!(channels.get_socket_num(), 0);
    assert_eq!(context.phase(), Phase::Closed);
    assert!(matches!(acts.last(), Some(Action::Stop)));
}

#[test]
fn too_many_attempts_end_a_paired_device_too() {
    let mut channels = ChannelManage::new();
    registered(&mut channels, 1);
    registered(&mut channels, 2);
    let (_creator, code) = create_group(&mut channels, 1);
    let mut context = Context::new(addr(2));
    let _ = context.start_work(&mut channels);
    for _ in 1..MAX_ATTEMPTS {
        let _ = context.handle_event(Event::Socket(Message::NoPairDeviceResponseMessage()), &mut channels);
    }
    let acts = context.handle_event(
        Event::Socket(Message::PairRequestMessage("000001".into(), device(2, "late"), false)),
        &mut channels,
    );
    assert!(matches!(acts[0], Action::SendSocket(Message::NoPairDeviceResponseMessage())));
    assert!(matches!(acts.last(), Some(Action::Stop)));
    assert_eq!(context.phase(), Phase::Closed);
    assert!(channels.contains_pair_code(&code));
    assert!(channels.get_stream_channel(addr(2)).is_none());
    assert!(channels.get_stream_channel(addr(1)).is_some());
}

#[test]
fn stream_channel_close_stops_without_disconnect() {
    let mut channels = ChannelManage::new();
    registered(&mut channels, 1);
    let (mut context, _) = create_group(&mut channels, 1);
    let acts = context.handle_event(Event::StreamChannelClosed, &mut channels);
    assert_eq!(acts.len(), 1);
    assert!(matches!(acts[0], Action::Stop));
    assert_eq!(channels.get_pair_num(), 1);
    assert!(!context.creates_pair_group(&Event::Socket(Message::PairCreateMessage(device(1, "x"))), &channels));
}

#[test]
fn attempts_are_counted_only_on_return_to_listening() {
    let mut channels = ChannelManage::new();
    registered(&mut channels, 1);
    let mut context = Context::new(addr(1));
    let _ = context.start_work(&mut channels);
    let known = Event::Socket(Message::HeartPackageMessage());
    assert!(!context.counts_attempt(&known, &channels));
    let unknown = Event::Socket(Message::PairRequestMessage("999999".into(), device(1, "d"), false));
    assert!(context.counts_attempt(&unknown, &channels));
    assert!(!context.counts_attempt(&Event::Timeout, &channels));
    let (paired, code) = create_group(&mut channels, 1);
    assert!(channels.contains_pair_code(&code));
    assert!(paired.counts_attempt(&Event::Socket(Message::RemovePairRequestMessage(addr(1))), &channels));
    assert!(!paired.counts_attempt(&Event::Socket(Message::RemovePairRequestMessage(addr(2))), &channels));
}

#[test]
fn unknown_code_with_create_flag_creates_a_group() {
    let mut channels = ChannelManage::new();
    registered(&mut channels, 1);
    registered(&mut channels, 2);
    let (_first, first_code) = create_group(&mut channels, 1);
    let mut context = Context::new(addr(2));
    let _ = context.start_work(&mut channels);
    let event = Event::Socket(Message::PairRequestMessage("000001".to_string(), device(2, "d"), true));
    assert!(context.creates_pair_group(&event, &channels));
    assert!(!context.counts_attempt(&event, &channels));
    let acts = context.handle_event(event, &mut channels);
    assert_eq!(acts.len(), 2);
    let code = match &acts[0] {
        Action::SendSocket(Message::PairCodeResponseMessage(code)) => code.clone(),
        other => panic!("unexpected {:?}", other),
    };
    assert_eq!(code.len(), 6);
    assert_ne!(code, first_code);
    assert_eq!(context.phase(), Phase::Paired);
    assert_eq!(context.pair_code().unwrap(), &code);
    assert_eq!(channels.get_pair_num(), 2);
    let joining = Event::Socket(Message::PairRequestMessage(first_code.clone(), device(2, "d"), true));
    assert!(!context.creates_pair_group(&joining, &channels));
}

#[test]
fn new_groups_get_their_own_channels() {
    let mut channels = ChannelManage::new();
    let (tx1, _) = channels.add_pair_channel(device(1, "a"));
    let (tx2, _) = channels.add_pair_channel(device(2, "b"));
    assert!(!tx1.same_channel(&tx2));
    let mut rx1 = tx1.subscribe();
    tx2.send((Message::ClipboardMessage("secret".into()), addr(2))).ok();
    assert!(rx1.try_recv().is_err());
}
