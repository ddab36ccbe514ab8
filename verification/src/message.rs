use vstd::prelude::*;
use bytes::BytesMut;
use crate::app_errors::{AppError, AppResult};
use crate::bindings::{bytes_extend_from_slice, bytes_mut_contents, bytes_put_i32, bytes_put_u8, bytes_with_capacity};
use crate::cursor::{be_i32_at, be_u32_at, lemma_i32_be_roundtrip, i32_be_bytes, remaining_from, CursorView, FrameCursor};

verus! {

/// A peer's socket address, held as plain values.
#[derive(Debug, Clone, Copy, PartialEq, Eq, Structural, Hash)]
#[allow(inconsistent_fields)]
pub enum PeerAddr {
    /// An IPv4 address (its four octets, most significant first) and a port.
    V4 { ip: u32, port: u16 },
    /// An IPv6 address (its sixteen octets, most significant first), a port,
    /// the flow information and the scope id.
    V6 { ip: u128, port: u16, flowinfo: u32, scope_id: u32 },
}

/// The IP address of a peer, without its port.
#[derive(Debug, Clone, Copy, PartialEq, Eq, Structural, Hash)]
pub enum IpKey {
    V4(u32),
    V6(u128),
}

impl PeerAddr {
    /// The IP address of this socket address.
    pub fn ip_key(&self) -> (r: IpKey)
        ensures
            r == (match *self {
                PeerAddr::V4 { ip, .. } => IpKey::V4(ip),
                PeerAddr::V6 { ip, .. } => IpKey::V6(ip),
            }),
    {
        match *self {
            PeerAddr::V4 { ip, .. } => IpKey::V4(ip),
            PeerAddr::V6 { ip, .. } => IpKey::V6(ip),
        }
    }

    /// An IPv4 socket address from its four octets and port.
    pub fn v4(a: u8, b: u8, c: u8, d: u8, port: u16) -> (r: PeerAddr)
        ensures
            r == (PeerAddr::V4 { ip: (a * 16777216 + b * 65536 + c * 256 + d) as u32, port }),
    {
        let ip: u32 = (a as u32) * 16777216 + (b as u32) * 65536 + (c as u32) * 256 + (d as u32);
        PeerAddr::V4 { ip, port }
    }
}

/// The kind of device a client runs on.
#[derive(Debug, Clone, Copy, PartialEq, Eq, Structural)]
pub enum DeviceType {
    DeskTop,
    Phone,
}

} // verus!

verus! {

/// What a `DeviceInfo` stands for: its address, its name and its kind.
pub struct DeviceView {
    pub addr: PeerAddr,
    pub name: Seq<char>,
    pub device_type: DeviceType,
}

/// A client device: the address of its connection, its name and its kind.
#[derive(Debug)]
pub struct DeviceInfo {
    socket_addr: PeerAddr,
    device_name: String,
    device_type: DeviceType,
}

impl View for DeviceInfo {
    type V = DeviceView;

    closed spec fn view(&self) -> DeviceView {
        DeviceView {
            addr: self.socket_addr,
            name: self.device_name@,
            device_type: self.device_type,
        }
    }
}

impl Clone for DeviceInfo {
    fn clone(&self) -> (r: Self)
        ensures
            r@ == self@,
    {
        DeviceInfo {
            socket_addr: self.socket_addr,
            device_name: self.device_name.clone(),
            device_type: self.device_type,
        }
    }
}

impl DeviceInfo {
    /// A desktop device with the given address and name.
    pub fn new(socket_addr: PeerAddr, device_name: String) -> (r: Self)
        ensures
            r@ == (DeviceView { addr: socket_addr, name: device_name@, device_type: DeviceType::DeskTop }),
    {
        DeviceInfo { socket_addr, device_name, device_type: DeviceType::DeskTop }
    }

    /// A device of any kind.
    pub fn with_type(socket_addr: PeerAddr, device_name: String, device_type: DeviceType) -> (r: Self)
        ensures
            r@ == (DeviceView { addr: socket_addr, name: device_name@, device_type }),
    {
        DeviceInfo { socket_addr, device_name, device_type }
    }

    pub fn get_addr(&self) -> (r: PeerAddr)
        ensures
            r == self@.addr,
    {
        self.socket_addr
    }

    pub fn device_name(&self) -> (r: &String)
        ensures
            r@ == self@.name,
    {
        &self.device_name
    }

    pub fn device_type(&self) -> (r: DeviceType)
        ensures
            r == self@.device_type,
    {
        self.device_type
    }

    /// Whether two devices agree in address, name and kind.
    pub fn same_device(&self, other: &DeviceInfo) -> (r: bool)
        ensures
            r == (self@ == other@),
    {
        self.socket_addr == other.socket_addr && self.device_type == other.device_type
            && self.device_name == other.device_name
    }
}

} // verus!

verus! {

/// What a `Message` stands for, with strings and lists taken by their views.
pub enum MessageView {
    HeartPackage,
    PairRequest(Seq<char>, DeviceView, bool),
    PairCreate(DeviceView),
    PairDeviceInfosResponse(Seq<DeviceView>),
    PairCodeResponse(Seq<char>),
    Clipboard(Seq<char>),
    ServerReadyResponse(PeerAddr),
    NoPairDeviceResponse,
    RemovePairRequest(PeerAddr),
    RemovePairResponse,
    WorkError,
    DeviceChangeResponse(bool, DeviceView),
    Close,
}

/// The views of a list of devices, in order.
pub open spec fn devices_view(devices: Seq<DeviceInfo>) -> Seq<DeviceView> {
    devices.map_values(|d: DeviceInfo| d@)
}

/// The messages exchanged between clients and the server.
#[derive(Debug)]
pub enum Message {
    /// Heartbeat.
    HeartPackageMessage(),
    /// Pair code, the requesting device, and whether to create a group for the
    /// device when no group has the code (the new group gets a fresh code).
    PairRequestMessage(String, DeviceInfo, bool),
    /// A device asks the server to create a pair group.
    PairCreateMessage(DeviceInfo),
    /// The devices of the group that a request joined.
    PairDeviceInfosResponseMessage(Vec<DeviceInfo>),
    /// The code of a newly created group.
    PairCodeResponseMessage(String),
    /// Clipboard content.
    ClipboardMessage(String),
    /// The server is ready; carries the client's address as the server sees it.
    ServerReadyResponseMessage(PeerAddr),
    /// No group has the requested code.
    NoPairDeviceResponseMessage(),
    /// Ask the server to remove the device at this address from its group.
    RemovePairRequestMessage(PeerAddr),
    /// The device was removed from its group.
    RemovePairResponseMessage(),
    /// The session failed and must end.
    WorkErrorMessage(),
    /// A device joined (`true`) or left (`false`) the group.
    DeviceChangeResponseMessage(bool, DeviceInfo),
    /// The client closes.
    CloseMessage(),
}

impl View for Message {
    type V = MessageView;

    open spec fn view(&self) -> MessageView {
        match self {
            Message::HeartPackageMessage() => MessageView::HeartPackage,
            Message::PairRequestMessage(c, d, b) => MessageView::PairRequest(c@, d@, *b),
            Message::PairCreateMessage(d) => MessageView::PairCreate(d@),
            Message::PairDeviceInfosResponseMessage(v) => MessageView::PairDeviceInfosResponse(devices_view(v@)),
            Message::PairCodeResponseMessage(c) => MessageView::PairCodeResponse(c@),
            Message::ClipboardMessage(c) => MessageView::Clipboard(c@),
            Message::ServerReadyResponseMessage(a) => MessageView::ServerReadyResponse(*a),
            Message::NoPairDeviceResponseMessage() => MessageView::NoPairDeviceResponse,
            Message::RemovePairRequestMessage(a) => MessageView::RemovePairRequest(*a),
            Message::RemovePairResponseMessage() => MessageView::RemovePairResponse,
            Message::WorkErrorMessage() => MessageView::WorkError,
            Message::DeviceChangeResponseMessage(b, d) => MessageView::DeviceChangeResponse(*b, d@),
            Message::CloseMessage() => MessageView::Close,
        }
    }
}

/// The type byte that the wire format puts in front of each message kind.
pub open spec fn type_id_of(m: MessageView) -> u8 {
    match m {
        MessageView::HeartPackage => 0,
        MessageView::PairRequest(..) => 1,
        MessageView::PairCreate(..) => 2,
        MessageView::PairDeviceInfosResponse(..) => 3,
        MessageView::PairCodeResponse(..) => 4,
        MessageView::Clipboard(..) => 5,
        MessageView::ServerReadyResponse(..) => 6,
        MessageView::NoPairDeviceResponse => 7,
        MessageView::RemovePairRequest(..) => 8,
        MessageView::RemovePairResponse => 9,
        MessageView::WorkError => 10,
        MessageView::DeviceChangeResponse(..) => 11,
        MessageView::Close => 12,
    }
}

impl Clone for Message {
    fn clone(&self) -> (r: Self)
        ensures
            r@ == self@,
    {
        match self {
            Message::HeartPackageMessage() => Message::HeartPackageMessage(),
            Message::PairRequestMessage(c, d, b) => Message::PairRequestMessage(c.clone(), d.clone(), *b),
            Message::PairCreateMessage(d) => Message::PairCreateMessage(d.clone()),
            Message::PairDeviceInfosResponseMessage(v) => {
                let w = v.clone();
                assert(devices_view(w@) =~= devices_view(v@));
                Message::PairDeviceInfosResponseMessage(w)
            },
            Message::PairCodeResponseMessage(c) => Message::PairCodeResponseMessage(c.clone()),
            Message::ClipboardMessage(c) => Message::ClipboardMessage(c.clone()),
            Message::ServerReadyResponseMessage(a) => Message::ServerReadyResponseMessage(*a),
            Message::NoPairDeviceResponseMessage() => Message::NoPairDeviceResponseMessage(),
            Message::RemovePairRequestMessage(a) => Message::RemovePairRequestMessage(*a),
            Message::RemovePairResponseMessage() => Message::RemovePairResponseMessage(),
            Message::WorkErrorMessage() => Message::WorkErrorMessage(),
            Message::DeviceChangeResponseMessage(b, d) => Message::DeviceChangeResponseMessage(*b, d.clone()),
            Message::CloseMessage() => Message::CloseMessage(),
        }
    }
}

impl Message {
    /// The type byte of this message.
    pub fn get_tye_id(&self) -> (r: u8)
        ensures
            r == type_id_of(self@),
            r <= 12,
    {
        match self {
            Message::HeartPackageMessage() => 0,
            Message::PairRequestMessage(_, _, _) => 1,
            Message::PairCreateMessage(_) => 2,
            Message::PairDeviceInfosResponseMessage(_) => 3,
            Message::PairCodeResponseMessage(_) => 4,
            Message::ClipboardMessage(_) => 5,
            Message::ServerReadyResponseMessage(_) => 6,
            Message::NoPairDeviceResponseMessage() => 7,
            Message::RemovePairRequestMessage(_) => 8,
            Message::RemovePairResponseMessage() => 9,
            Message::WorkErrorMessage() => 10,
            Message::DeviceChangeResponseMessage(_, _) => 11,
            Message::CloseMessage() => 12,
        }
    }
}

} // verus!

verus! {

/// The frame of a message: its type byte, the length of its content as a
/// big-endian `i32` (the length cast to `i32`), then the content.
pub open spec fn frame_bytes(type_id: u8, content: Seq<u8>) -> Seq<u8> {
    seq![type_id] + i32_be_bytes(content.len() as i32) + content
}

/// What checking for a complete frame at `pos` in `s` gives, and the position
/// the cursor is left at.
pub open spec fn check_frame(s: Seq<u8>, pos: u64) -> (AppResult<()>, u64) {
    let rem = remaining_from(s.len(), pos as int);
    if rem < 5 {
        (Err(AppError::IncompleteError), pos)
    } else {
        let len = be_i32_at(s, pos + 1);
        let remain_size = ((rem - 5) as usize) as i32;
        let after = pos + 5;
        if len <= remain_size {
            if 0 <= after + len <= u64::MAX {
                (Ok(()), (after + len) as u64)
            } else {
                (Err(AppError::MessageFormatError), after as u64)
            }
        } else {
            (Err(AppError::IncompleteError), after as u64)
        }
    }
}

/// The content that `decode` takes out of `s` when its cursor stands at `pos`.
pub open spec fn decoded_content(s: Seq<u8>, pos: u64) -> Seq<u8> {
    s.subrange(5, 5 + (be_i32_at(s, pos + 1) as usize))
}

/// Whether `decode` can run on `s` from `pos` without going out of bounds.
pub open spec fn decodable(s: Seq<u8>, pos: u64) -> bool {
    &&& remaining_from(s.len(), pos as int) >= 5
    &&& 5 + (be_i32_at(s, pos + 1) as usize) <= s.len()
}

impl Message {
    /// Checks whether the bytes from the cursor on hold a complete frame: a
    /// type byte, a big-endian `i32` length, then at least that many bytes.
    /// On success the cursor stands just past the frame.
    pub fn check_entire_message(src: &mut FrameCursor) -> (r: AppResult<()>)
        ensures
            r == check_frame(old(src)@.bytes, old(src)@.pos).0,
            final(src)@ == (CursorView { bytes: old(src)@.bytes, pos: check_frame(old(src)@.bytes, old(src)@.pos).1 }),
    {
        if !src.has_remaining() {
            Err(AppError::IncompleteError)
        } else if src.remaining() < 5 {
            Err(AppError::IncompleteError)
        } else {
            let _ = src.get_u8();
            let len = src.get_i32();
            let remain_size = src.remaining() as i32;
            if len <= remain_size {
                if src.seek_current(len as i64) {
                    Ok(())
                } else {
                    Err(AppError::MessageFormatError)
                }
            } else {
                Err(AppError::IncompleteError)
            }
        }
    }

    /// Frames this message around `content`, the serialized form of the
    /// message: the type byte, the content's length as a big-endian `i32`,
    /// then the content.
    pub fn encode(&self, content: &[u8]) -> (r: BytesMut)
        requires
            content@.len() + 5 <= isize::MAX,
        ensures
            bytes_mut_contents(r) == frame_bytes(type_id_of(self@), content@),
    {
        let mut bytes_mut = bytes_with_capacity(content.len() + 1 + 4);
        bytes_put_u8(&mut bytes_mut, self.get_tye_id());
        bytes_put_i32(&mut bytes_mut, content.len() as i32);
        bytes_extend_from_slice(&mut bytes_mut, content);
        assert(bytes_mut_contents(bytes_mut) =~= frame_bytes(type_id_of(self@), content@));
        bytes_mut
    }

    /// Skips the type byte, reads the length, and gives the content that
    /// follows the five header bytes at the start of the buffer.
    pub fn decode<'a>(src: &mut FrameCursor<'a>) -> (r: &'a [u8])
        requires
            decodable(old(src)@.bytes, old(src)@.pos),
        ensures
            r@ == decoded_content(old(src)@.bytes, old(src)@.pos),
            final(src)@.bytes == old(src)@.bytes,
            final(src)@.pos == old(src)@.pos + 5,
    {
        let _ = src.get_u8();
        let len = src.get_i32() as usize;
        let bytes = src.get_ref();
        let total = bytes.len();
        assert(5 + len <= total);
        &bytes[5..5 + len]
    }
}

} // verus!

verus! {

/// The length field of a frame reads back as the content's length, when that
/// length fits in an `i32`; the header is five bytes long.
proof fn lemma_frame_header(type_id: u8, content: Seq<u8>, extra: Seq<u8>)
    requires
        content.len() <= i32::MAX,
    ensures
        (frame_bytes(type_id, content) + extra).len() == 5 + content.len() + extra.len(),
        be_i32_at(frame_bytes(type_id, content) + extra, 1) == content.len(),
        (frame_bytes(type_id, content) + extra)[0] == type_id,
        (frame_bytes(type_id, content) + extra).subrange(5, 5 + content.len() as int) == content,
{
    let v = content.len() as i32;
    lemma_i32_be_roundtrip(v);
    let h = i32_be_bytes(v);
    let s = frame_bytes(type_id, content) + extra;
    assert(s[1] == h[0] && s[2] == h[1] && s[3] == h[2] && s[4] == h[3]);
    assert(be_u32_at(s, 1) == be_u32_at(h, 0));
    assert(s.subrange(5, 5 + content.len() as int) =~= content);
}

/// A frame is recognised as complete, however many bytes of following frames
/// stand behind it, and the cursor then stands just past it; decoding it gives
/// back its content. The length field holds the length cast to `i32`, so this
/// holds where the content and what follows fit in an `i32`.
pub proof fn law_frame_roundtrip(type_id: u8, content: Seq<u8>, extra: Seq<u8>)
    requires
        content.len() + extra.len() <= i32::MAX,
    ensures
        check_frame(frame_bytes(type_id, content) + extra, 0)
            == (Ok::<(), AppError>(()), (5 + content.len()) as u64),
        decodable(frame_bytes(type_id, content) + extra, 0),
        decoded_content(frame_bytes(type_id, content) + extra, 0) == content,
{
    lemma_frame_header(type_id, content, extra);
}

/// Every proper prefix of a frame is reported incomplete: the reader waits for
/// more bytes rather than failing.
pub proof fn law_frame_prefix_incomplete(type_id: u8, content: Seq<u8>, k: int)
    requires
        content.len() <= i32::MAX,
        0 <= k < frame_bytes(type_id, content).len(),
    ensures
        check_frame(frame_bytes(type_id, content).take(k), 0).0 == Err::<(), AppError>(AppError::IncompleteError),
{
    let f = frame_bytes(type_id, content);
    lemma_frame_header(type_id, content, Seq::empty());
    assert(f + Seq::<u8>::empty() =~= f);
    let p = f.take(k);
    if k >= 5 {
        assert(p[1] == f[1] && p[2] == f[2] && p[3] == f[3] && p[4] == f[4]);
        assert(be_i32_at(p, 1) == be_i32_at(f, 1));
    }
}

} // verus!

verus! {

impl Message {
    /// Whether `decode` can take the content out of `buffer` with the cursor
    /// at its start.
    pub fn frame_is_decodable(buffer: &[u8]) -> (r: bool)
        ensures
            r == decodable(buffer@, 0),
    {
        if buffer.len() < 5 {
            return false;
        }
        let mut cursor = FrameCursor::new(buffer);
        let _ = cursor.get_u8();
        let len = cursor.get_i32() as usize;
        len <= buffer.len() - 5
    }
}

} // verus!
