use clipboard_sync::app_errors::AppError;
use clipboard_sync::channel_manage::ChannelManage;
use clipboard_sync::cursor::FrameCursor;
use clipboard_sync::handler::Context;
use clipboard_sync::message::{DeviceInfo, DeviceType, Message, PeerAddr};
use clipboard_sync::utils::{decimal_string, generate_id, generate_pair_code};
use tokio::sync::broadcast;

fn addr(port: u16) -> PeerAddr {
    PeerAddr::v4(10, 0, 0, 1, port)
}

#[test]
fn frame_round_trip_with_following_bytes() {
    let content = b"{\"ClipboardMessage\":[\"hi\"]}";
    let frame = Message::ClipboardMessage("hi".into()).encode(content);
    assert_eq!(frame[0], 5);
    let mut buffer = frame.to_vec();
    buffer.extend_from_slice(&[1, 2, 3]);
    match Context::parse_message(&buffer) {
        Ok(Some((len, body))) => {
            assert_eq!(len, 5 + content.len());
            assert_eq!(body, content);
        }
        other => panic!("unexpected {:?}", other),
    }
}

#[test]
fn every_prefix_is_incomplete() {
    let content = b"abcdef";
    let frame = Message::HeartPackageMessage().encode(content);
    for k in 0..frame.len() {
        assert!(matches!(Context::parse_message(&frame[..k]), Ok(None)));
        let mut cursor = FrameCursor::new(&frame[..k]);
        assert!(matches!(Message::check_entire_message(&mut cursor), Err(AppError::IncompleteError)));
    }
}

#[test]
fn check_leaves_cursor_after_frame() {
    let frame = Message::CloseMessage().encode(b"xy");
    let mut cursor = FrameCursor::new(&frame);
    assert!(Message::check_entire_message(&mut cursor).is_ok());
    assert_eq!(cursor.position(), 7);
    cursor.set_position(0);
    assert_eq!(Message::decode(&mut cursor), b"xy");
    assert_eq!(cursor.position(), 5);
}

#[test]
fn negative_length_far_back_is_a_format_error() {
    let buffer = [1u8, 0xff, 0xff, 0xff, 0xf0, 0];
    let mut cursor = FrameCursor::new(&buffer);
    assert!(matches!(Message::check_entire_message(&mut cursor), Err(AppError::MessageFormatError)));
    assert_eq!(cursor.position(), 5);
    assert!(matches!(Context::parse_message(&buffer), Err(AppError::MessageFormatError)));
    assert!(!Context::parse_would_panic(&buffer));
}

#[test]
fn slightly_negative_length_cannot_be_decoded() {
    let buffer = [1u8, 0xff, 0xff, 0xff, 0xff, 0];
    assert!(Context::parse_would_panic(&buffer));
    assert!(!Message::frame_is_decodable(&buffer));
}

#[test]
fn big_endian_reads() {
    let bytes = [0x80u8, 0, 0, 1, 0x7f, 0xff, 0xff, 0xff];
    let mut cursor = FrameCursor::new(&bytes);
    assert_eq!(cursor.get_i32(), i32::MIN + 1);
    assert_eq!(cursor.get_i32(), i32::MAX);
    assert_eq!(cursor.remaining(), 0);
    assert!(!cursor.has_remaining());
    assert!(!cursor.seek_current(-9));
    assert!(cursor.seek_current(-8));
    assert_eq!(cursor.position(), 0);
}

#[test]
fn type_ids() {
    let d = DeviceInfo::new(addr(1), "d".into());
    let all = vec![
        Message::HeartPackageMessage(),
        Message::PairRequestMessage("1".into(), d.clone(), false),
        Message::PairCreateMessage(d.clone()),
        Message::PairDeviceInfosResponseMessage(vec![d.clone()]),
        Message::PairCodeResponseMessage("1".into()),
        Message::ClipboardMessage("c".into()),
        Message::ServerReadyResponseMessage(addr(1)),
        Message::NoPairDeviceResponseMessage(),
        Message::RemovePairRequestMessage(addr(1)),
        Message::RemovePairResponseMessage(),
        Message::WorkErrorMessage(),
        Message::DeviceChangeResponseMessage(true, d),
        Message::CloseMessage(),
    ];
    for (i, m) in all.iter().enumerate() {
        assert_eq!(m.get_tye_id() as usize, i);
    }
}

#[test]
fn pair_codes_and_ids() {
    for _ in 0..50 {
        let code = generate_pair_code();
        assert_eq!(code.len(), 6);
        let n: u64 = code.parse().unwrap();
        assert!((100000..1000000).contains(&n));
    }
    let id = generate_id();
    assert_eq!(id.len(), 9);
    assert!(id.chars().all(|c| c.is_ascii_alphanumeric()));
    assert_eq!(decimal_string(0), "0");
    assert_eq!(decimal_string(907), "907");
}

#[test]
fn device_equality_and_fields() {
    let a = DeviceInfo::with_type(addr(1), "phone".into(), DeviceType::Phone);
    let b = a.clone();
    assert!(a.same_device(&b));
    assert!(!a.same_device(&DeviceInfo::new(addr(1), "phone".into())));
    assert_eq!(a.get_addr(), addr(1));
    assert_eq!(a.device_type(), DeviceType::Phone);
}

#[test]
fn stream_channels_register_and_forget() {
    let mut channels = ChannelManage::new();
    let (tx, _) = broadcast::channel::<Message>(4);
    channels.add_stream_channel(addr(1), tx.clone());
    let found = channels.get_stream_channel(addr(1)).unwrap();
    let mut rx = tx.subscribe();
    found.send(Message::CloseMessage()).unwrap();
    assert!(matches!(rx.try_recv(), Ok(Message::CloseMessage())));
    let (tx2, _) = broadcast::channel::<Message>(4);
    channels.add_stream_channel(addr(1), tx2);
    assert_eq!(channels.get_socket_num(), 1);
    channels.remove_stream_channel(addr(1));
    assert!(channels.get_stream_channel(addr(1)).is_none());
    assert_eq!(channels.get_socket_num(), 0);
}

#[test]
fn pair_groups_join_and_leave() {
    let mut channels = ChannelManage::new();
    let a = DeviceInfo::new(addr(1), "a".into());
    let b = DeviceInfo::new(addr(2), "b".into());
    let (tx, code) = channels.add_pair_channel(a.clone());
    assert!(channels.get_pair_channel("000000", &b).is_none());
    let (tx2, devices) = channels.get_pair_channel(&code, &b).unwrap();
    assert_eq!(devices.len(), 2);
    let mut rx = tx.subscribe();
    tx2.send((Message::CloseMessage(), addr(2))).unwrap();
    assert!(rx.try_recv().is_ok());
    channels.remove_pair_device(&code, b.clone());
    let (_, devices) = channels.get_pair_channel(&code, &b).unwrap();
    assert_eq!(devices.len(), 2);
    channels.remove_pair_device(&code, b);
    channels.remove_pair_device(&code, a);
    assert_eq!(channels.get_pair_num(), 0);
    assert!(channels.get_pair_channel(&code, &DeviceInfo::new(addr(3), "c".into())).is_none());
}
