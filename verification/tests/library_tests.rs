use clipboard_sync::channel_manage::ChannelManage;
use clipboard_sync::cursor::FrameCursor;
use clipboard_sync::limiter::ConnectionLimiter;
use clipboard_sync::handler::{Action, Context, Event, Phase};
use clipboard_sync::message::{DeviceInfo, IpKey, Message, PeerAddr};

fn addr(port: u16) -> PeerAddr {
    PeerAddr::v4(127, 0, 0, 1, port)
}

#[test]
fn test_cursor() {
    let bytes = "nihao 1245748".as_bytes();
    let mut buf = FrameCursor::new(bytes);
    let first = buf.get_u8();
    assert_eq!(first, b'n');
    let len = buf.get_ref().len();
    assert_eq!(len, 13);
    assert_eq!(buf.position(), 1);
}

#[test]
fn test_encode() {
    let message = Message::WorkErrorMessage();
    let content = br#"{"WorkErrorMessage":[]}"#;
    let frame = message.encode(content);
    let mut expected = vec![10u8, 0, 0, 0, content.len() as u8];
    expected.extend_from_slice(content);
    assert_eq!(&frame[..], &expected[..]);
}

#[test]
fn test_set() {
    let mut limiter = ConnectionLimiter::new();
    let banned = PeerAddr::v4(172, 104, 39, 21, 4000).ip_key();
    limiter.ban(banned);
    assert!(!limiter.offer(banned));
    assert!(limiter.offer(addr(1).ip_key()));
}

#[test]
fn test_match() {
    let mut channels = ChannelManage::new();
    let mut context = Context::new(addr(1));
    let _ = context.start_work(&mut channels);
    let device = DeviceInfo::new(addr(1), "one".to_string());
    let _ = context.handle_event(Event::Socket(Message::PairCreateMessage(device)), &mut channels);
    assert_eq!(context.phase(), Phase::Paired);
    let acts = context.handle_event(
        Event::PairChannel(Message::ClipboardMessage("ui".into()), addr(2)),
        &mut channels,
    );
    assert_eq!(acts.len(), 1);
    match &acts[0] {
        Action::SendSocket(Message::ClipboardMessage(s)) => assert_eq!(s, "ui"),
        other => panic!("unexpected {:?}", other),
    }
}

#[test]
fn test_change_map() {
    let mut limiter = ConnectionLimiter::new();
    let ip = IpKey::V4(1);
    for _ in 0..10 {
        assert!(limiter.offer(ip));
    }
    assert!(!limiter.offer(ip));
}
