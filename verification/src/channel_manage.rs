use vstd::prelude::*;
use tokio::sync::broadcast::Sender;
use crate::assoc::{
    assoc_map, keys_distinct, lemma_assoc_dom, lemma_assoc_entry, lemma_assoc_len, lemma_assoc_push,
    lemma_assoc_remove, lemma_assoc_update,
};
use crate::message::{devices_view, DeviceInfo, DeviceView, Message, PeerAddr};
use crate::utils::{decimal_digits, decimal_string, generate_pair_code, is_pair_code, lemma_some_code_free};

verus! {

/// The capacity of the channel of a new pair group.
pub const PAIR_CHANNEL_CAPACITY: usize = 20;

/// The most pair groups that can exist at once: one per six-digit code.
pub const MAX_PAIR_GROUPS: usize = 900000;

/// What a pair group stands for: its broadcast channel and its devices, in
/// the order they joined.
pub struct PairGroup {
    pub tx: Sender<(Message, PeerAddr)>,
    pub devices: Seq<DeviceView>,
}

/// What a `ChannelManage` stands for: the channel of each connected address,
/// and the pair groups by code.
pub struct ChannelsView {
    pub streams: Map<PeerAddr, Sender<Message>>,
    pub pairs: Map<Seq<char>, PairGroup>,
}

/// Every pair group is keyed by a pair code and holds at least one device.
pub open spec fn pairs_well_kept(pairs: Map<Seq<char>, PairGroup>) -> bool {
    &&& pairs.dom().finite()
    &&& forall|code: Seq<char>| #[trigger] pairs.dom().contains(code) ==> is_pair_code(code) && pairs[code].devices.len() > 0
}

/// The devices of a group after every device equal to `device` left it.
pub open spec fn without_device(devices: Seq<DeviceView>, device: DeviceView) -> Seq<DeviceView> {
    devices.filter(differs_from(device))
}

/// Whether a device differs from `device`.
pub open spec fn differs_from(device: DeviceView) -> spec_fn(DeviceView) -> bool {
    |d: DeviceView| d != device
}

/// The pair groups after `device` left the group `code`: the group is gone
/// when no device is left in it.
pub open spec fn pairs_after_leave(
    pairs: Map<Seq<char>, PairGroup>,
    code: Seq<char>,
    device: DeviceView,
) -> Map<Seq<char>, PairGroup> {
    if pairs.dom().contains(code) {
        let left = without_device(pairs[code].devices, device);
        if left.len() == 0 {
            pairs.remove(code)
        } else {
            pairs.insert(code, PairGroup { tx: pairs[code].tx, devices: left })
        }
    } else {
        pairs
    }
}

struct PairEntry {
    code: String,
    tx: Sender<(Message, PeerAddr)>,
    devices: Vec<DeviceInfo>,
}

spec fn entry_ok(e: PairEntry) -> bool {
    is_pair_code(e.code@) && e.devices@.len() > 0
}

spec fn entry_view(e: PairEntry) -> (Seq<char>, PairGroup) {
    (e.code@, PairGroup { tx: e.tx, devices: devices_view(e.devices@) })
}

/// The registry shared by all connections: the channel through which each
/// connection can be reached, and the pair groups.
pub struct ChannelManage {
    stream_channel: Vec<(PeerAddr, Sender<Message>)>,
    pair_channel: Vec<PairEntry>,
}

impl View for ChannelManage {
    type V = ChannelsView;

    closed spec fn view(&self) -> ChannelsView {
        ChannelsView { streams: assoc_map(self.stream_channel@), pairs: assoc_map(self.pair_seq()) }
    }
}

impl ChannelManage {
    closed spec fn pair_seq(&self) -> Seq<(Seq<char>, PairGroup)> {
        self.pair_channel@.map_values(|e: PairEntry| entry_view(e))
    }

    /// The registry's invariant: no address and no code occurs twice, and
    /// every group is keyed by a pair code and holds a device.
    pub closed spec fn wf(&self) -> bool {
        &&& keys_distinct(self.stream_channel@)
        &&& keys_distinct(self.pair_seq())
        &&& forall|i: int| 0 <= i < self.pair_channel@.len() ==> #[trigger] entry_ok(self.pair_channel@[i])
    }

    /// The registry's invariant, seen through its view.
    pub proof fn lemma_wf_view(&self)
        requires
            self.wf(),
        ensures
            pairs_well_kept(self@.pairs),
            self@.streams.dom().finite(),
    {
        lemma_assoc_len(self.pair_seq());
        lemma_assoc_len(self.stream_channel@);
        assert forall|code: Seq<char>| #[trigger] self@.pairs.dom().contains(code) implies is_pair_code(code)
            && self@.pairs[code].devices.len() > 0 by {
            lemma_assoc_dom(self.pair_seq(), code);
            let i = choose|i: int| 0 <= i < self.pair_seq().len() && self.pair_seq()[i].0 == code;
            lemma_assoc_entry(self.pair_seq(), i);
            assert(self.pair_seq()[i] == entry_view(self.pair_channel@[i]));
            assert(entry_ok(self.pair_channel@[i]));
        }
    }

    pub fn new() -> (r: Self)
        ensures
            r.wf(),
            r@.streams == Map::<PeerAddr, Sender<Message>>::empty(),
            r@.pairs == Map::<Seq<char>, PairGroup>::empty(),
    {
        let r = ChannelManage { stream_channel: Vec::new(), pair_channel: Vec::new() };
        assert(r.pair_seq() =~= Seq::empty());
        r
    }

    fn find_stream(&self, addr: PeerAddr) -> (r: Option<usize>)
        ensures
            match r {
                Some(i) => i < self.stream_channel@.len() && self.stream_channel@[i as int].0 == addr,
                None => forall|j: int| 0 <= j < self.stream_channel@.len() ==> self.stream_channel@[j].0 != addr,
            },
    {
        let mut i: usize = 0;
        while i < self.stream_channel.len()
            invariant
                i <= self.stream_channel@.len(),
                forall|j: int| 0 <= j < i ==> self.stream_channel@[j].0 != addr,
            decreases self.stream_channel@.len() - i,
        {
            if self.stream_channel[i].0 == addr {
                return Some(i);
            }
            i = i + 1;
        }
        None
    }

    fn find_pair(&self, code: &String) -> (r: Option<usize>)
        ensures
            match r {
                Some(i) => i < self.pair_channel@.len() && self.pair_channel@[i as int].code@ == code@,
                None => forall|j: int| 0 <= j < self.pair_channel@.len() ==> self.pair_channel@[j].code@ != code@,
            },
    {
        let mut i: usize = 0;
        while i < self.pair_channel.len()
            invariant
                i <= self.pair_channel@.len(),
                forall|j: int| 0 <= j < i ==> self.pair_channel@[j].code@ != code@,
            decreases self.pair_channel@.len() - i,
        {
            if self.pair_channel[i].code == *code {
                return Some(i);
            }
            i = i + 1;
        }
        None
    }

    /// Registers the channel of the connection at `addr`, replacing any earlier one.
    pub fn add_stream_channel(&mut self, addr: PeerAddr, tx: Sender<Message>)
        requires
            old(self).wf(),
        ensures
            final(self).wf(),
            final(self)@.streams == old(self)@.streams.insert(addr, tx),
            final(self)@.pairs == old(self)@.pairs,
    {
        match self.find_stream(addr) {
            Some(i) => {
                proof {
                    lemma_assoc_update(self.stream_channel@, i as int, tx);
                }
                self.stream_channel.set(i, (addr, tx));
                assert(self.stream_channel@ =~= old(self).stream_channel@.update(i as int, (addr, tx)));
            },
            None => {
                proof {
                    lemma_assoc_dom(self.stream_channel@, addr);
                    lemma_assoc_push(self.stream_channel@, addr, tx);
                }
                self.stream_channel.push((addr, tx));
            },
        }
    }

    /// The channel of the connection at `addr`, if one is registered.
    pub fn get_stream_channel(&self, addr: PeerAddr) -> (r: Option<Sender<Message>>)
        requires
            self.wf(),
        ensures
            r == (if self@.streams.dom().contains(addr) { Some(self@.streams[addr]) } else { None }),
    {
        match self.find_stream(addr) {
            Some(i) => {
                proof {
                    lemma_assoc_entry(self.stream_channel@, i as int);
                }
                Some(self.stream_channel[i].1.clone())
            },
            None => {
                proof {
                    lemma_assoc_dom(self.stream_channel@, addr);
                }
                None
            },
        }
    }

    /// Forgets the channel of the connection at `addr`.
    pub fn remove_stream_channel(&mut self, addr: PeerAddr)
        requires
            old(self).wf(),
        ensures
            final(self).wf(),
            final(self)@.streams == old(self)@.streams.remove(addr),
            final(self)@.pairs == old(self)@.pairs,
    {
        match self.find_stream(addr) {
            Some(i) => {
                proof {
                    lemma_assoc_remove(self.stream_channel@, i as int);
                }
                let _ = self.stream_channel.remove(i);
            },
            None => {
                proof {
                    lemma_assoc_dom(self.stream_channel@, addr);
                    assert(old(self)@.streams.remove(addr) =~= old(self)@.streams);
                }
            },
        }
    }

    /// Whether a pair group has the code `pair_code`.
    pub fn contains_pair_code(&self, pair_code: &str) -> (r: bool)
        requires
            self.wf(),
        ensures
            r == self@.pairs.dom().contains(pair_code@),
    {
        let code = pair_code.to_owned();
        match self.find_pair(&code) {
            Some(i) => {
                proof {
                    lemma_assoc_entry(self.pair_seq(), i as int);
                    assert(self.pair_seq()[i as int] == entry_view(self.pair_channel@[i as int]));
                }
                true
            },
            None => {
                proof {
                    self.lemma_code_absent(pair_code@);
                }
                false
            },
        }
    }

    /// The number of registered connections.
    pub fn get_socket_num(&self) -> (r: usize)
        requires
            self.wf(),
        ensures
            r == self@.streams.dom().len(),
    {
        proof {
            lemma_assoc_len(self.stream_channel@);
        }
        self.stream_channel.len()
    }

    /// The number of pair groups.
    pub fn get_pair_num(&self) -> (r: usize)
        requires
            self.wf(),
        ensures
            r == self@.pairs.dom().len(),
    {
        proof {
            lemma_assoc_len(self.pair_seq());
        }
        self.pair_channel.len()
    }
}


/// The devices of `devices` that differ from `target`, in order.
fn retain_others(devices: &Vec<DeviceInfo>, target: &DeviceInfo) -> (r: Vec<DeviceInfo>)
    ensures
        devices_view(r@) == without_device(devices_view(devices@), target@),
{
    let mut kept: Vec<DeviceInfo> = Vec::new();
    let mut k: usize = 0;
    while k < devices.len()
        invariant
            k <= devices@.len(),
            devices_view(kept@) == without_device(devices_view(devices@).take(k as int), target@),
        decreases devices@.len() - k,
    {
        let ghost before = kept@;
        let ghost all = devices_view(devices@);
        assert(all.take(k + 1) =~= all.take(k as int).push(all[k as int]));
        proof {
            all.take(k as int).lemma_filter_push(all[k as int], differs_from(target@));
        }
        if !devices[k].same_device(target) {
            kept.push(devices[k].clone());
            assert(devices_view(kept@) =~= devices_view(before).push(all[k as int]));
        }
        k = k + 1;
    }
    assert(devices_view(devices@).take(devices@.len() as int) =~= devices_view(devices@));
    kept
}

impl ChannelManage {
    proof fn lemma_pair_seq_update(&self, other: &Self, i: int)
        requires
            0 <= i < self.pair_channel@.len(),
            other.pair_channel@ == self.pair_channel@.update(i, other.pair_channel@[i]),
        ensures
            other.pair_seq() == self.pair_seq().update(i, entry_view(other.pair_channel@[i])),
    {
        assert(other.pair_seq() =~= self.pair_seq().update(i, entry_view(other.pair_channel@[i])));
    }

    /// Adds `device_info` to the group with code `pair_code`, if there is one,
    /// and gives the group's channel and its devices, the new one last.
    pub fn get_pair_channel(&mut self, pair_code: &str, device_info: &DeviceInfo) -> (r: Option<
        (Sender<(Message, PeerAddr)>, Vec<DeviceInfo>),
    >)
        requires
            old(self).wf(),
        ensures
            final(self).wf(),
            final(self)@.streams == old(self)@.streams,
            match r {
                None => {
                    &&& !old(self)@.pairs.dom().contains(pair_code@)
                    &&& final(self)@.pairs == old(self)@.pairs
                },
                Some((tx, devices)) => {
                    &&& old(self)@.pairs.dom().contains(pair_code@)
                    &&& tx == old(self)@.pairs[pair_code@].tx
                    &&& devices_view(devices@) == old(self)@.pairs[pair_code@].devices.push(device_info@)
                    &&& final(self)@.pairs == old(self)@.pairs.insert(
                        pair_code@,
                        PairGroup { tx, devices: devices_view(devices@) },
                    )
                },
            },
    {
        let code = pair_code.to_owned();
        match self.find_pair(&code) {
            None => {
                proof {
                    lemma_assoc_dom(self.pair_seq(), pair_code@);
                    assert forall|j: int| 0 <= j < self.pair_seq().len() implies self.pair_seq()[j].0 != pair_code@ by {
                        assert(self.pair_seq()[j] == entry_view(self.pair_channel@[j]));
                    }
                }
                None
            },
            Some(i) => {
                let ghost old_self = *self;
                proof {
                    lemma_assoc_entry(self.pair_seq(), i as int);
                    assert(self.pair_seq()[i as int] == entry_view(self.pair_channel@[i as int]));
                }
                let mut entry = self.pair_channel.remove(i);
                let ghost old_devices = entry.devices@;
                let ghost old_code = entry.code;
                assert(entry_ok(old_self.pair_channel@[i as int]));
                entry.devices.push(device_info.clone());
                assert(entry.code == old_code);
                assert(entry_ok(entry));
                assert(devices_view(entry.devices@) =~= devices_view(old_devices).push(device_info@));
                let result = (entry.tx.clone(), entry.devices.clone());
                assert(devices_view(result.1@) =~= devices_view(entry.devices@));
                self.pair_channel.insert(i, entry);
                proof {
                    assert(self.pair_channel@ =~= old_self.pair_channel@.update(i as int, self.pair_channel@[i as int]));
                    old_self.lemma_pair_seq_update(self, i as int);
                    lemma_assoc_update(old_self.pair_seq(), i as int, entry_view(self.pair_channel@[i as int]).1);
                    assert(entry_view(self.pair_channel@[i as int]) == (old_self.pair_seq()[i as int].0, entry_view(self.pair_channel@[i as int]).1));
                    assert forall|j: int| 0 <= j < self.pair_channel@.len() implies #[trigger] entry_ok(self.pair_channel@[j]) by {
                        if j != i {
                            assert(self.pair_channel@[j] == old_self.pair_channel@[j]);
                        }
                    }
                }
                Some(result)
            },
        }
    }

    /// Takes every device equal to `device_info` out of the group with code
    /// `pair_code`; the group goes away when no device is left in it.
    pub fn remove_pair_device(&mut self, pair_code: &str, device_info: DeviceInfo)
        requires
            old(self).wf(),
        ensures
            final(self).wf(),
            final(self)@.streams == old(self)@.streams,
            final(self)@.pairs == pairs_after_leave(old(self)@.pairs, pair_code@, device_info@),
    {
        let code = pair_code.to_owned();
        match self.find_pair(&code) {
            None => {
                proof {
                    lemma_assoc_dom(self.pair_seq(), pair_code@);
                    assert forall|j: int| 0 <= j < self.pair_seq().len() implies self.pair_seq()[j].0 != pair_code@ by {
                        assert(self.pair_seq()[j] == entry_view(self.pair_channel@[j]));
                    }
                }
            },
            Some(i) => {
                let ghost old_self = *self;
                proof {
                    lemma_assoc_entry(self.pair_seq(), i as int);
                    assert(self.pair_seq()[i as int] == entry_view(self.pair_channel@[i as int]));
                }
                let mut entry = self.pair_channel.remove(i);
                let kept = retain_others(&entry.devices, &device_info);
                if kept.len() == 0 {
                    proof {
                        assert(self.pair_channel@ =~= old_self.pair_channel@.remove(i as int));
                        assert(self.pair_seq() =~= old_self.pair_seq().remove(i as int));
                        lemma_assoc_remove(old_self.pair_seq(), i as int);
                        assert forall|j: int| 0 <= j < self.pair_channel@.len() implies #[trigger] entry_ok(self.pair_channel@[j]) by {
                            if j < i {
                                assert(self.pair_channel@[j] == old_self.pair_channel@[j]);
                            } else {
                                assert(self.pair_channel@[j] == old_self.pair_channel@[j + 1]);
                                assert(entry_ok(old_self.pair_channel@[j + 1]));
                            }
                        }
                    }
                } else {
                    let ghost old_entry = entry;
                    assert(old_entry == old_self.pair_channel@[i as int]);
                    assert(entry_ok(old_entry));
                    entry.devices = kept;
                    assert(entry.code == old_entry.code);
                    assert(entry.devices@.len() > 0);
                    assert(entry_ok(entry));
                    self.pair_channel.insert(i, entry);
                    proof {
                        assert(self.pair_channel@ =~= old_self.pair_channel@.update(i as int, self.pair_channel@[i as int]));
                        old_self.lemma_pair_seq_update(self, i as int);
                        lemma_assoc_update(old_self.pair_seq(), i as int, entry_view(self.pair_channel@[i as int]).1);
                        assert forall|j: int| 0 <= j < self.pair_channel@.len() implies #[trigger] entry_ok(self.pair_channel@[j]) by {
                            if j != i {
                                assert(self.pair_channel@[j] == old_self.pair_channel@[j]);
                            }
                        }
                    }
                }
            },
        }
    }
}

/// `tokio::sync::broadcast::channel(capacity).0`: the sending half of a new
/// channel (its first receiver is dropped). The channel is freshly allocated
/// (tokio's `Sender` holds an `Arc` of the new shared state), so the sender
/// is none of the senders of the groups in `existing`, which are alive while
/// borrowed here; `existing` is read by nothing but this claim. Nothing else
/// is stated of the new channel; `channel` panics on a capacity of 0 or above
/// `usize::MAX / 2`, which `requires` rules out.
#[verifier::external_body]
fn new_pair_sender(capacity: usize, existing: &Vec<PairEntry>) -> (r: Sender<(Message, PeerAddr)>)
    requires
        0 < capacity <= usize::MAX / 2,
    ensures
        forall|i: int| 0 <= i < existing@.len() ==> existing@[i].tx != r,
{
    tokio::sync::broadcast::channel(capacity).0
}

impl ChannelManage {
    proof fn lemma_code_absent(&self, code: Seq<char>)
        requires
            forall|j: int| 0 <= j < self.pair_channel@.len() ==> self.pair_channel@[j].code@ != code,
        ensures
            !self@.pairs.dom().contains(code),
    {
        lemma_assoc_dom(self.pair_seq(), code);
        assert forall|j: int| 0 <= j < self.pair_seq().len() implies self.pair_seq()[j].0 != code by {
            assert(self.pair_seq()[j] == entry_view(self.pair_channel@[j]));
        }
    }

    /// A sender that is none of the groups' senders is none of the senders
    /// in the view.
    proof fn lemma_senders_fresh(&self, tx: Sender<(Message, PeerAddr)>)
        requires
            self.wf(),
            forall|i: int| 0 <= i < self.pair_channel@.len() ==> self.pair_channel@[i].tx != tx,
        ensures
            forall|c: Seq<char>| #[trigger] self@.pairs.dom().contains(c) ==> self@.pairs[c].tx != tx,
    {
        assert forall|c: Seq<char>| #[trigger] self@.pairs.dom().contains(c) implies self@.pairs[c].tx != tx by {
            lemma_assoc_dom(self.pair_seq(), c);
            let i = choose|i: int| 0 <= i < self.pair_seq().len() && self.pair_seq()[i].0 == c;
            lemma_assoc_entry(self.pair_seq(), i);
            assert(self.pair_seq()[i] == entry_view(self.pair_channel@[i]));
        }
    }

    fn insert_group(&mut self, code: String, tx: Sender<(Message, PeerAddr)>, device_info: DeviceInfo)
        requires
            old(self).wf(),
            is_pair_code(code@),
            !old(self)@.pairs.dom().contains(code@),
        ensures
            final(self).wf(),
            final(self)@.streams == old(self)@.streams,
            final(self)@.pairs == old(self)@.pairs.insert(code@, PairGroup { tx, devices: seq![device_info@] }),
    {
        let ghost old_self = *self;
        let ghost dv = device_info@;
        let devices = vec![device_info];
        assert(devices_view(devices@) =~= seq![dv]);
        let entry = PairEntry { code, tx, devices };
        assert(entry_ok(entry));
        self.pair_channel.push(entry);
        proof {
            assert(self.pair_seq() =~= old_self.pair_seq().push(entry_view(entry)));
            lemma_assoc_push(old_self.pair_seq(), entry_view(entry).0, entry_view(entry).1);
            assert forall|j: int| 0 <= j < self.pair_channel@.len() implies #[trigger] entry_ok(self.pair_channel@[j]) by {
                if j < old_self.pair_channel@.len() {
                    assert(self.pair_channel@[j] == old_self.pair_channel@[j]);
                }
            }
        }
    }

    /// Creates a pair group holding `device_info` under a fresh random pair
    /// code, and gives its channel and its code. Codes are drawn until a free
    /// one comes up; should `u64::MAX` draws in a row all be taken, the
    /// smallest free code is used.
    pub fn add_pair_channel(&mut self, device_info: DeviceInfo) -> (r: (Sender<(Message, PeerAddr)>, String))
        requires
            old(self).wf(),
            old(self)@.pairs.dom().len() < MAX_PAIR_GROUPS,
        ensures
            final(self).wf(),
            final(self)@.streams == old(self)@.streams,
            is_pair_code(r.1@),
            !old(self)@.pairs.dom().contains(r.1@),
            forall|c: Seq<char>| #[trigger] old(self)@.pairs.dom().contains(c) ==> old(self)@.pairs[c].tx != r.0,
            final(self)@.pairs == old(self)@.pairs.insert(r.1@, PairGroup { tx: r.0, devices: seq![device_info@] }),
    {
        let tx = new_pair_sender(PAIR_CHANNEL_CAPACITY, &self.pair_channel);
        proof {
            self.lemma_senders_fresh(tx);
        }
        let r_tx = tx.clone();
        let mut attempts: u64 = 0;
        loop
            invariant
                self.wf(),
                *self == *old(self),
                self@.pairs.dom().len() < MAX_PAIR_GROUPS,
                r_tx == tx,
                forall|c: Seq<char>| #[trigger] self@.pairs.dom().contains(c) ==> self@.pairs[c].tx != tx,
            decreases u64::MAX - attempts,
        {
            let code = generate_pair_code();
            if self.find_pair(&code).is_none() {
                proof {
                    self.lemma_code_absent(code@);
                }
                let r_code = code.clone();
                self.insert_group(code, tx, device_info);
                return (r_tx, r_code);
            }
            if attempts == u64::MAX {
                break;
            }
            attempts = attempts + 1;
        }
        let ghost taken = self@.pairs.dom();
        proof {
            self.lemma_wf_view();
            lemma_some_code_free(taken);
        }
        let mut n: u64 = 100000;
        loop
            invariant
                self.wf(),
                *self == *old(self),
                r_tx == tx,
                forall|c: Seq<char>| #[trigger] self@.pairs.dom().contains(c) ==> self@.pairs[c].tx != tx,
                taken == self@.pairs.dom(),
                100000 <= n < 1000000,
                exists|m: nat| n <= m < 1000000 && !taken.contains(#[trigger] decimal_digits(m)),
            decreases 1000000 - n,
        {
            let code = decimal_string(n);
            match self.find_pair(&code) {
                None => {
                    proof {
                        self.lemma_code_absent(code@);
                        assert(100000 <= (n as nat) && (n as nat) < 1000000 && code@ == decimal_digits(n as nat));
                    }
                    let r_code = code.clone();
                    self.insert_group(code, tx, device_info);
                    return (r_tx, r_code);
                },
                Some(i) => {
                    proof {
                        assert(self.pair_seq()[i as int] == entry_view(self.pair_channel@[i as int]));
                        lemma_assoc_dom(self.pair_seq(), code@);
                        assert(taken.contains(decimal_digits(n as nat)));
                        let m = choose|m: nat| n <= m < 1000000 && !taken.contains(#[trigger] decimal_digits(m));
                        assert(m != n);
                    }
                },
            }
            n = n + 1;
        }
    }
}

} // verus!

verus! {

/// A device that joins a group created by another stands after it in the
/// group's list, which then holds exactly the two.
pub proof fn law_join_after_create(
    pairs: Map<Seq<char>, PairGroup>,
    code: Seq<char>,
    tx: Sender<(Message, PeerAddr)>,
    creator: DeviceView,
    joiner: DeviceView,
)
    ensures
        pairs.insert(code, PairGroup { tx, devices: seq![creator] }).dom().contains(code),
        pairs.insert(code, PairGroup { tx, devices: seq![creator] })[code].devices.push(joiner) == seq![creator, joiner],
        pairs.insert(code, PairGroup { tx, devices: seq![creator] })[code].tx == tx,
{
    assert(seq![creator].push(joiner) =~= seq![creator, joiner]);
}

/// After a device leaves a group, the group no longer holds it and keeps its
/// channel; the group is gone exactly when every device in it was equal to
/// the one that left; other groups are untouched.
pub proof fn law_leave_removes_device(pairs: Map<Seq<char>, PairGroup>, code: Seq<char>, device: DeviceView)
    requires
        pairs.dom().contains(code),
    ensures
        pairs_after_leave(pairs, code, device).dom().contains(code) <==> (exists|i: int|
            0 <= i < pairs[code].devices.len() && pairs[code].devices[i] != device),
        pairs_after_leave(pairs, code, device).dom().contains(code) ==> {
            &&& !pairs_after_leave(pairs, code, device)[code].devices.contains(device)
            &&& pairs_after_leave(pairs, code, device)[code].tx == pairs[code].tx
        },
        forall|other: Seq<char>| other != code ==> {
            &&& (pairs_after_leave(pairs, code, device).dom().contains(other) <==> pairs.dom().contains(other))
            &&& (pairs.dom().contains(other) ==> pairs_after_leave(pairs, code, device)[other] == pairs[other])
        },
{
    let devices = pairs[code].devices;
    let pred = differs_from(device);
    let left = without_device(devices, device);
    broadcast use vstd::seq_lib::group_filter_ensures;
    if exists|i: int| 0 <= i < devices.len() && devices[i] != device {
        let i = choose|i: int| 0 <= i < devices.len() && devices[i] != device;
        devices.lemma_filter_contains(pred, i);
        assert(left.contains(devices[i]));
    }
    if left.len() > 0 {
        assert(left.contains(left[0]));
        assert(pred(left[0]));
        devices.lemma_filter_contains_rev(pred, left[0]);
        let k = choose|k: int| 0 <= k < devices.len() && devices[k] == left[0];
        assert(devices[k] != device);
        assert forall|j: int| 0 <= j < left.len() implies left[j] != device by {
            devices.lemma_filter_pred(pred, j);
        }
    }
}

/// Leaving a group keeps every group keyed by a pair code and non-empty.
pub proof fn law_leave_keeps_groups_well_kept(pairs: Map<Seq<char>, PairGroup>, code: Seq<char>, device: DeviceView)
    requires
        pairs_well_kept(pairs),
    ensures
        pairs_well_kept(pairs_after_leave(pairs, code, device)),
{
    if pairs.dom().contains(code) {
        law_leave_removes_device(pairs, code, device);
        let after = pairs_after_leave(pairs, code, device);
        assert forall|c: Seq<char>| #[trigger] after.dom().contains(c) implies is_pair_code(c) && after[c].devices.len() > 0 by {
            if c == code {
                assert(pairs.dom().contains(code));
            }
        }
    }
}

/// A registered channel is found again under its address, and a forgotten
/// one is not.
pub proof fn law_stream_register_lookup(
    streams: Map<PeerAddr, Sender<Message>>,
    addr: PeerAddr,
    tx: Sender<Message>,
)
    ensures
        streams.insert(addr, tx).dom().contains(addr),
        streams.insert(addr, tx)[addr] == tx,
        !streams.insert(addr, tx).remove(addr).dom().contains(addr),
{
}

} // verus!

verus! {

/// A call that changes the registry's connection channels.
pub enum StreamOp {
    /// `add_stream_channel(addr, tx)`.
    Add(PeerAddr, Sender<Message>),
    /// `remove_stream_channel(addr)`.
    Remove(PeerAddr),
}

/// The connection channels after the calls in `ops`, in order, starting from
/// `streams`; the pair-group calls leave them as they are.
pub open spec fn apply_stream_ops(
    streams: Map<PeerAddr, Sender<Message>>,
    ops: Seq<StreamOp>,
) -> Map<PeerAddr, Sender<Message>>
    decreases ops.len(),
{
    if ops.len() == 0 {
        streams
    } else {
        let before = apply_stream_ops(streams, ops.drop_last());
        match ops.last() {
            StreamOp::Add(a, tx) => before.insert(a, tx),
            StreamOp::Remove(a) => before.remove(a),
        }
    }
}

/// The last call in `ops` about `addr`, if any.
pub open spec fn last_op_on(ops: Seq<StreamOp>, addr: PeerAddr) -> Option<StreamOp>
    decreases ops.len(),
{
    if ops.len() == 0 {
        None
    } else {
        match ops.last() {
            StreamOp::Add(a, _) => if a == addr { Some(ops.last()) } else { last_op_on(ops.drop_last(), addr) },
            StreamOp::Remove(a) => if a == addr { Some(ops.last()) } else { last_op_on(ops.drop_last(), addr) },
        }
    }
}

/// After any sequence of registrations and removals, looking an address up
/// finds the channel of its last registration, unless a removal of that
/// address came after it; an address that no call touched keeps what it had.
pub proof fn law_stream_lookup_after_calls(
    streams: Map<PeerAddr, Sender<Message>>,
    ops: Seq<StreamOp>,
    addr: PeerAddr,
)
    ensures
        ({
            let after = apply_stream_ops(streams, ops);
            match last_op_on(ops, addr) {
                Some(StreamOp::Add(_, tx)) => after.dom().contains(addr) && after[addr] == tx,
                Some(StreamOp::Remove(_)) => !after.dom().contains(addr),
                None => (after.dom().contains(addr) <==> streams.dom().contains(addr)) && (streams.dom().contains(
                    addr,
                ) ==> after[addr] == streams[addr]),
            }
        }),
    decreases ops.len(),
{
    if ops.len() > 0 {
        law_stream_lookup_after_calls(streams, ops.drop_last(), addr);
    }
}

} // verus!
