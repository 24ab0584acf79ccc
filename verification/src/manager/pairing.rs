//! Pairing with other devices.

use vstd::prelude::*;
use vstd::string::*;
use vstd::utf8::encode_utf8;

use crate::manager::keys::{absorbed, offered_secret};
use crate::manager::own::on_the_wire;
use crate::manager::{http_entry, http_log, SyncManager, SyncManagerV};
use crate::models::{endpoint_text, lemma_views_push, seconds_between, views, whole, Device, DeviceV, PairCode, SyncDirection, SyncEventType, SyncLogEntry, Timestamp};
use crate::outside::{clock, in_calendar};
use crate::storage::codes::{code_valid, law_removed_code_is_invalid, other_code, with_code};
use crate::storage::devices::{candidate_device, device_of, device_row, device_with_id, format_opt, format_time, lemma_device_row, merge_candidate, opt_time_text, reads_back, time_text, uid_of, with_change, with_stored, DeviceChangeV};
use crate::storage::identity::{distinct_ids, law_change_is_local, law_column_is_set, law_merge_candidate, law_registered_reads_back, law_registering_keeps_the_rest};
use crate::storage::logs::with_log;
use crate::storage::order::{lemma_filter_ends, lemma_filter_keeps, lemma_filter_member, lemma_filter_step};
use crate::storage::secrets::{safety_code, secret_of};
use crate::storage::{DeviceRowV, SyncDbV};
use crate::text::{byte_prefix, chars_of, decimal, opt_text, push_decimal, same, take_bytes, trim, trimmed, Outcome};

verus! {

// ---- requests that wait for an answer ----

/// Whether a device waits for an answer.
pub open spec fn waiting(list: Seq<DeviceV>, id: Seq<char>) -> bool {
    exists|i: int| 0 <= i < list.len() && (#[trigger] list[i]).id == id
}

/// The request of a device.
pub open spec fn request_of(list: Seq<DeviceV>, id: Seq<char>) -> Option<DeviceV>
    decreases list.len(),
{
    if list.len() == 0 {
        None
    } else if list[0].id == id {
        Some(list[0])
    } else {
        request_of(list.drop_first(), id)
    }
}

/// The requests after one comes: it takes the place of an earlier one of the same device.
pub open spec fn with_request(list: Seq<DeviceV>, d: DeviceV) -> Seq<DeviceV> {
    if waiting(list, d.id) {
        Seq::new(
            list.len(),
            |i: int|
                if list[i].id == d.id {
                    d
                } else {
                    list[i]
                },
        )
    } else {
        list.push(d)
    }
}

/// The test for requests of other devices.
pub open spec fn from_other(id: Seq<char>) -> spec_fn(DeviceV) -> bool {
    |d: DeviceV| d.id != id
}

/// The ids of devices.
pub open spec fn ids_of(list: Seq<DeviceV>) -> Seq<Seq<char>> {
    Seq::new(list.len(), |i: int| list[i].id)
}

/// The message on a request that came.
pub open spec fn request_message(self_id: Seq<char>, d: DeviceV) -> Seq<char> {
    "本机("@ + self_id + ") 收到配对请求: "@ + d.name + "("@ + d.id + ":"@ + d.ip + " - "@ + decimal(
        d.port as int,
    ) + ")"@
}

/// The state after a request came.
pub open spec fn with_inbound(m: SyncManagerV, d: DeviceV, now: Timestamp) -> SyncManagerV {
    SyncManagerV {
        db: with_log(
            m.db,
            http_entry(
                SyncDirection::In,
                SyncEventType::Pairing,
                Some(d.id),
                request_message(m.self_id, d),
                None,
                None,
                now,
            ),
        ),
        inbound: with_request(m.inbound, d),
        ..m
    }
}

proof fn lemma_request_of(list: Seq<DeviceV>, id: Seq<char>)
    ensures
        request_of(list, id) is Some <==> waiting(list, id),
        request_of(list, id) matches Some(d) ==> d.id == id && list.contains(d),
    decreases list.len(),
{
    if list.len() > 0 {
        let rest = list.drop_first();
        lemma_request_of(rest, id);
        if list[0].id == id {
            assert(list.contains(list[0]));
        } else {
            if waiting(rest, id) {
                let j = choose|j: int| 0 <= j < rest.len() && (#[trigger] rest[j]).id == id;
                assert(list[j + 1] == rest[j]);
            }
            if waiting(list, id) {
                let j = choose|j: int| 0 <= j < list.len() && (#[trigger] list[j]).id == id;
                assert(rest[j - 1] == list[j]);
            }
            if request_of(rest, id) is Some {
                let d = request_of(rest, id)->0;
                let j = choose|j: int| 0 <= j < rest.len() && rest[j] == d;
                assert(list[j + 1] == d);
            }
        }
    }
}

// ---- joining with a code ----

/// Why a code does not let a device join.
#[derive(Debug, Clone, Copy, PartialEq, Eq, Structural)]
pub enum PairError {
    /// The code is not known, or not valid any more.
    InvalidOrExpiredCode,
    /// The database failed.
    Db,
}

/// The outcome of trying a code: the device that joins is paired.
pub open spec fn code_tried(
    m: SyncManagerV,
    code: Seq<char>,
    device: DeviceV,
    now: Timestamp,
) -> Result<DeviceV, PairError> {
    if code_valid(m.db.codes, code, now) {
        Ok(DeviceV { is_self: false, paired: true, ..device })
    } else {
        Err(PairError::InvalidOrExpiredCode)
    }
}

/// The state after a code was tried: a code that let a device join is spent.
pub open spec fn code_spent(m: SyncManagerV, code: Seq<char>, now: Timestamp) -> SyncManagerV {
    if code_valid(m.db.codes, code, now) {
        SyncManagerV {
            db: SyncDbV { codes: m.db.codes.filter(other_code(code)), ..m.db },
            ..m
        }
    } else {
        m
    }
}

/// The contents of a device that joins, or why none does.
pub open spec fn tried_view(r: Result<Device, PairError>) -> Result<DeviceV, PairError> {
    match r {
        Ok(d) => Ok(d@),
        Err(e) => Err(e),
    }
}

// ---- what a peer says of itself ----

/// A device as it is registered after a handshake: what it says of itself, but for the
/// pairing, the alias and the last synchronisation that are known here.
pub open spec fn handshake_device(rows: Seq<DeviceRowV>, dev: DeviceV, now: Timestamp) -> DeviceV {
    let d = DeviceV { is_self: false, device_secret: None, ..dev };
    match device_with_id(rows, dev.id, now) {
        Some(e) => DeviceV {
            paired: e.paired,
            alias: e.alias,
            last_sync_at: e.last_sync_at,
            ..d
        },
        None => d,
    }
}

/// The rows after the first `n` of the devices that an answer names are registered. This
/// device itself, and one without an id, are passed over.
pub open spec fn introduced(
    rows: Seq<DeviceRowV>,
    self_id: Seq<char>,
    peers: Seq<DeviceV>,
    n: nat,
    now: Timestamp,
) -> Seq<DeviceRowV>
    decreases n,
{
    if n == 0 {
        rows
    } else {
        let before = introduced(rows, self_id, peers, (n - 1) as nat, now);
        let d = peers[n - 1];
        if d.id.len() == 0 || d.id == self_id {
            before
        } else {
            with_stored(before, handshake_device(before, d, now))
        }
    }
}

/// The state after an answer to a pairing message is taken over: the secret in it and the
/// devices that it names.
pub open spec fn answered(
    m: SyncManagerV,
    peer_id: Seq<char>,
    offered: Option<Seq<char>>,
    peers: Seq<DeviceV>,
    now: Timestamp,
) -> SyncManagerV {
    let k = absorbed(m, peer_id, offered, now);
    SyncManagerV {
        db: SyncDbV {
            devices: introduced(k.db.devices, k.self_id, peers, peers.len(), now),
            ..k.db
        },
        ..k
    }
}

/// The state after a device is marked as paired or not.
pub open spec fn marked(m: SyncManagerV, peer_id: Seq<char>, paired: bool) -> SyncManagerV {
    SyncManagerV {
        db: SyncDbV {
            devices: with_change(m.db.devices, peer_id, DeviceChangeV::Paired(paired)),
            ..m.db
        },
        ..m
    }
}

// ---- messages ----

/// What the log says of the secret in a message.
pub open spec fn secret_note(d: DeviceV) -> Seq<char> {
    if d.device_secret is Some {
        "\n密钥: 随报文附带（日志不落密钥）"@
    } else {
        "\n密钥: 本次由对端生成后交换"@
    }
}

/// The message on asking a device to be paired.
pub open spec fn asking_message(
    self_id: Seq<char>,
    peer: DeviceV,
    payload: Seq<char>,
    wire: DeviceV,
) -> Seq<char> {
    "本机("@ + self_id + ") 向 "@ + peer.name + "("@ + peer.id + ") 发起配对请求\n目标: "@ + peer.name
        + " ("@ + peer.ip + ":"@ + decimal(peer.port as int) + ")\nURL: "@ + (endpoint_text(
        peer.ip,
        peer.port,
    ) + "/pair/request"@) + "\n请求体: "@ + payload + secret_note(wire)
}

/// The message on confirming a pairing.
pub open spec fn confirming_message(
    self_id: Seq<char>,
    peer: DeviceV,
    payload: Seq<char>,
    wire: DeviceV,
) -> Seq<char> {
    "本机("@ + self_id + ") 确认与 "@ + peer.name + "("@ + peer.id + ") 配对\nURL: "@ + (endpoint_text(
        peer.ip,
        peer.port,
    ) + "/pair/confirm"@) + "\n请求体: "@ + payload + secret_note(wire)
}

/// A pairing message that is to be sent.
#[derive(Debug)]
pub struct PairMessage {
    /// The device that it goes to.
    pub peer: Device,
    /// The address that it goes to.
    pub url: String,
    /// What it carries.
    pub me: Device,
}

/// The contents of a [`PairMessage`].
pub struct PairMessageV {
    pub peer: DeviceV,
    pub url: Seq<char>,
    pub me: DeviceV,
}

impl View for PairMessage {
    type V = PairMessageV;

    open spec fn view(&self) -> PairMessageV {
        PairMessageV { peer: self.peer@, url: self.url@, me: self.me@ }
    }
}

/// The contents of a message, or why there is none.
pub open spec fn message_outcome(r: Result<PairMessage, String>) -> Outcome<PairMessageV> {
    match r {
        Ok(x) => Ok(x@),
        Err(e) => Err(e@),
    }
}

/// A message to a device, under a path, with what it carries; an error where the device is
/// not known.
pub open spec fn outgoing(
    m: SyncManagerV,
    peer_id: Seq<char>,
    path: Seq<char>,
    me: DeviceV,
    uid: Option<Seq<char>>,
    unknown: Seq<char>,
    now: Timestamp,
) -> Outcome<PairMessageV> {
    match device_with_id(m.db.devices, peer_id, now) {
        Some(peer) => Ok(
            PairMessageV {
                peer,
                url: endpoint_text(peer.ip, peer.port) + path,
                me: on_the_wire(m, me, uid),
            },
        ),
        None => Err(unknown),
    }
}

/// The number of bytes of a text.
pub open spec fn byte_len(s: Seq<char>) -> int {
    encode_utf8(s).len() as int
}

/// The state after a device is asked to be paired.
pub open spec fn asked(
    m: SyncManagerV,
    peer_id: Seq<char>,
    me: DeviceV,
    uid: Option<Seq<char>>,
    payload: Seq<char>,
    now: Timestamp,
) -> SyncManagerV {
    match device_with_id(m.db.devices, peer_id, now) {
        Some(peer) => SyncManagerV {
            db: with_log(
                m.db,
                http_entry(
                    SyncDirection::Out,
                    SyncEventType::Pairing,
                    Some(peer.id),
                    asking_message(m.self_id, peer, payload, on_the_wire(m, me, uid)),
                    Some(byte_len(payload) as u64),
                    None,
                    now,
                ),
            ),
            ..m
        },
        None => m,
    }
}

/// The state after a pairing is about to be confirmed.
pub open spec fn confirming(
    m: SyncManagerV,
    peer_id: Seq<char>,
    me: DeviceV,
    uid: Option<Seq<char>>,
    payload: Seq<char>,
    now: Timestamp,
) -> SyncManagerV {
    match device_with_id(m.db.devices, peer_id, now) {
        Some(peer) => SyncManagerV {
            db: with_log(
                m.db,
                http_entry(
                    SyncDirection::Out,
                    SyncEventType::Pairing,
                    Some(peer.id),
                    confirming_message(m.self_id, peer, payload, on_the_wire(m, me, uid)),
                    Some(byte_len(payload) as u64),
                    None,
                    now,
                ),
            ),
            ..m
        },
        None => m,
    }
}

/// The state after a confirmation is answered: the pairing stands, and no request waits.
pub open spec fn confirmed(
    m: SyncManagerV,
    peer_id: Seq<char>,
    offered: Option<Seq<char>>,
    peers: Seq<DeviceV>,
    now: Timestamp,
) -> SyncManagerV {
    let a = marked(answered(m, peer_id, offered, peers, now), peer_id, true);
    SyncManagerV { inbound: a.inbound.filter(from_other(peer_id)), ..a }
}

fn secret_note_of(d: &Device) -> (r: &'static str)
    ensures
        r@ == secret_note(d@),
{
    if d.device_secret.is_some() {
        "\n密钥: 随报文附带（日志不落密钥）"
    } else {
        "\n密钥: 本次由对端生成后交换"
    }
}

// ---- a suspected reinstallation ----

/// A paired device that may be the same machine as another.
#[derive(Debug)]
pub struct MergeHint {
    pub id: String,
    pub name: String,
    pub alias: Option<String>,
    /// The beginning of the fingerprint that both have.
    pub uid_hint: String,
    pub paired_at: String,
    pub last_sync_at: Option<String>,
    pub since_paired_days: i64,
}

/// The contents of a [`MergeHint`].
pub struct MergeHintV {
    pub id: Seq<char>,
    pub name: Seq<char>,
    pub alias: Option<Seq<char>>,
    pub uid_hint: Seq<char>,
    pub paired_at: Seq<char>,
    pub last_sync_at: Option<Seq<char>>,
    pub since_paired_days: int,
}

impl View for MergeHint {
    type V = MergeHintV;

    open spec fn view(&self) -> MergeHintV {
        MergeHintV {
            id: self.id@,
            name: self.name@,
            alias: opt_text(self.alias),
            uid_hint: self.uid_hint@,
            paired_at: self.paired_at@,
            last_sync_at: opt_text(self.last_sync_at),
            since_paired_days: self.since_paired_days as int,
        }
    }
}

/// The contents of an optional hint.
pub open spec fn opt_hint(h: Option<MergeHint>) -> Option<MergeHintV> {
    match h {
        Some(x) => Some(x@),
        None => None,
    }
}

/// The fingerprint of a device: the one in its request, else the one that is registered.
pub open spec fn known_uid(m: SyncManagerV, peer_id: Seq<char>) -> Option<Seq<char>> {
    match request_of(m.inbound, peer_id) {
        Some(d) => if d.machine_uid is Some {
            d.machine_uid
        } else {
            uid_of(m.db.devices, peer_id)
        },
        None => uid_of(m.db.devices, peer_id),
    }
}

/// What is shown of a device with the same fingerprint.
pub open spec fn hint_of(old_device: DeviceV, uid: Seq<char>, now: Timestamp) -> MergeHintV {
    MergeHintV {
        id: old_device.id,
        name: old_device.name,
        alias: old_device.alias,
        uid_hint: byte_prefix(uid, 8),
        paired_at: time_text(old_device.paired_at),
        last_sync_at: opt_time_text(old_device.last_sync_at),
        since_paired_days: whole(seconds_between(old_device.paired_at.ns(), now.ns()), 86400),
    }
}

/// The paired device that may be the same machine as another. Of two paired devices only the
/// one that was paired later has such a hint.
pub open spec fn merge_hint(m: SyncManagerV, peer_id: Seq<char>, now: Timestamp) -> Option<MergeHintV> {
    match known_uid(m, peer_id) {
        None => None,
        Some(uid) => match candidate_device(m.db.devices, uid, peer_id, now) {
            None => None,
            Some(old_device) => match device_with_id(m.db.devices, peer_id, now) {
                Some(me) => if me.paired && me.paired_at.ns() <= old_device.paired_at.ns() {
                    None
                } else {
                    Some(hint_of(old_device, uid, now))
                },
                None => Some(hint_of(old_device, uid, now)),
            },
        },
    }
}

impl SyncManager {
    fn find_request(&self, id: &str) -> (r: Option<usize>)
        ensures
            match r {
                Some(i) => i < self.inbound_pair_requests.len() && request_of(self@.inbound, id@)
                    == Some(self@.inbound[i as int]),
                None => request_of(self@.inbound, id@) is None,
            },
    {
        let ghost all = self@.inbound;
        let mut i: usize = 0;
        assert(all.skip(0) =~= all);
        while i < self.inbound_pair_requests.len()
            invariant
                i <= self.inbound_pair_requests.len(),
                all == self@.inbound,
                request_of(all, id@) == request_of(all.skip(i as int), id@),
            decreases self.inbound_pair_requests.len() - i,
        {
            assert(all.skip(i as int)[0] == all[i as int]);
            assert(all.skip(i as int).drop_first() =~= all.skip(i + 1));
            if same(self.inbound_pair_requests[i].id.as_str(), id) {
                return Some(i);
            }
            i = i + 1;
        }
        None
    }

    /// Whether a device waits for an answer.
    pub fn has_inbound_pair_request(&self, peer_id: &str) -> (r: bool)
        ensures
            r == waiting(self@.inbound, peer_id@),
    {
        proof {
            lemma_request_of(self@.inbound, peer_id@);
        }
        self.find_request(peer_id).is_some()
    }

    /// The ids of the devices that wait for an answer.
    pub fn inbound_pair_device_ids(&self) -> (r: Vec<String>)
        ensures
            views(r@) == ids_of(self@.inbound),
    {
        let ghost target = ids_of(self@.inbound);
        let mut r: Vec<String> = Vec::new();
        let mut i: usize = 0;
        assert(views(r@) =~= target.take(0));
        while i < self.inbound_pair_requests.len()
            invariant
                i <= self.inbound_pair_requests.len(),
                target == ids_of(self@.inbound),
                views(r@) == target.take(i as int),
            decreases self.inbound_pair_requests.len() - i,
        {
            let id: String = self.inbound_pair_requests[i].id.clone();
            proof {
                lemma_views_push(r@, id);
                assert(target.take(i + 1) =~= target.take(i as int).push(id@));
            }
            r.push(id);
            i = i + 1;
        }
        assert(target.take(i as int) =~= target);
        r
    }

    fn put_request(&mut self, d: Device)
        ensures
            final(self)@ == (SyncManagerV {
                inbound: with_request(old(self)@.inbound, d@),
                ..old(self)@
            }),
    {
        let known: bool = self.has_inbound_pair_request(d.id.as_str());
        if !known {
            proof {
                lemma_views_push(self.inbound_pair_requests@, d);
            }
            self.inbound_pair_requests.push(d);
            return;
        }
        let ghost before = self@.inbound;
        let ghost target = with_request(before, d@);
        let mut list: Vec<Device> = Vec::new();
        let mut out: Vec<Device> = Vec::new();
        std::mem::swap(&mut list, &mut self.inbound_pair_requests);
        let ghost all = list@;
        for x in it: list
            invariant
                it.seq() == all,
                before == views(all),
                waiting(before, d@.id),
                target == with_request(before, d@),
                views(out@) == target.take(it.index()),
        {
            let ghost i = it.index();
            assert(x@ == before[i]);
            let next: Device = if same(x.id.as_str(), d.id.as_str()) {
                d.clone()
            } else {
                x
            };
            proof {
                lemma_views_push(out@, next);
                assert(next@ == target[i]);
                assert(target.take(i + 1) =~= target.take(i).push(next@));
            }
            out.push(next);
        }
        assert(target.take(before.len() as int) =~= target);
        self.inbound_pair_requests = out;
    }

    /// Forgets the request of a device.
    pub fn forget_pair_request(&mut self, id: &str)
        ensures
            final(self)@ == (SyncManagerV {
                inbound: old(self)@.inbound.filter(from_other(id@)),
                ..old(self)@
            }),
    {
        let ghost before = self@.inbound;
        let ghost p = from_other(id@);
        let mut list: Vec<Device> = Vec::new();
        let mut out: Vec<Device> = Vec::new();
        std::mem::swap(&mut list, &mut self.inbound_pair_requests);
        let ghost all = list@;
        proof {
            lemma_filter_ends(before, p);
            assert(views(out@) =~= before.take(0).filter(p));
        }
        for x in it: list
            invariant
                it.seq() == all,
                before == views(all),
                p == from_other(id@),
                views(out@) == before.take(it.index()).filter(p),
        {
            let ghost i = it.index();
            assert(x@ == before[i]);
            proof {
                lemma_filter_step(before, i, p);
            }
            if !same(x.id.as_str(), id) {
                proof {
                    lemma_views_push(out@, x);
                }
                out.push(x);
            }
        }
        self.inbound_pair_requests = out;
    }

    /// Notes a request of another device at a time, and logs it.
    pub fn record_inbound_pair_request_at(&mut self, from: Device, now: &Timestamp)
        ensures
            final(self)@ == with_inbound(old(self)@, from@, *now),
    {
        let mut message: String = "本机(".to_string();
        message.append(self.self_id.as_str());
        message.append(") 收到配对请求: ");
        message.append(from.name.as_str());
        message.append("(");
        message.append(from.id.as_str());
        message.append(":");
        message.append(from.ip.as_str());
        message.append(" - ");
        push_decimal(&mut message, from.port as i128);
        message.append(")");
        let entry: SyncLogEntry = http_log(
            SyncDirection::In,
            SyncEventType::Pairing,
            Some(from.id.clone()),
            message,
            None,
            None,
            now,
        );
        let _ = self.db.add_log(&entry);
        self.put_request(from);
    }

    /// Notes a request of another device, and logs it.
    pub fn record_inbound_pair_request(&mut self, from: Device)
        ensures
            exists|now: Timestamp| final(self)@ == #[trigger] with_inbound(old(self)@, from@, now),
    {
        self.record_inbound_pair_request_at(from, &clock())
    }

    /// Tries a code with which a device wants to join, at a time.
    pub fn join_with_code_at(&mut self, code: &str, device: Device, now: &Timestamp) -> (r: Result<
        Device,
        PairError,
    >)
        ensures
            tried_view(r) == code_tried(old(self)@, code@, device@, *now),
            final(self)@ == code_spent(old(self)@, code@, *now),
    {
        if !self.db.validate_pair_code_at(code, now) {
            return Err(PairError::InvalidOrExpiredCode);
        }
        self.db.delete_pair_code(code);
        let mut d: Device = device;
        d.is_self = false;
        d.paired = true;
        Ok(d)
    }

    /// Tries a code with which a device wants to join. A code lets one device join.
    pub fn join_with_code(&mut self, code: &str, device: Device) -> (r: Result<Device, PairError>)
        ensures
            exists|now: Timestamp|
                #![trigger code_spent(old(self)@, code@, now)]
                tried_view(r) == code_tried(old(self)@, code@, device@, now) && final(self)@
                    == code_spent(old(self)@, code@, now),
    {
        self.join_with_code_at(code, device, &clock())
    }

    /// Keeps a code with which a device can join.
    pub fn create_pair_code(&mut self, code: &PairCode)
        ensures
            final(self)@ == (SyncManagerV {
                db: SyncDbV { codes: with_code(old(self)@.db.codes, code@), ..old(self)@.db },
                ..old(self)@
            }),
            in_calendar(code.expires_at) ==> forall|now: Timestamp| #[trigger]
                code_valid(final(self)@.db.codes, code@.code, now) == (now.ns()
                    < code.expires_at.ns()),
    {
        self.db.store_pair_code(code);
    }

    /// Marks a device as paired or not.
    pub fn mark_paired(&mut self, peer_id: &str, paired: bool)
        ensures
            final(self)@ == marked(old(self)@, peer_id@, paired),
    {
        let _ = self.db.set_paired(peer_id, paired);
    }

    /// Registers what a device says of itself in a handshake, at a time.
    pub fn refresh_peer_from_handshake_at(&mut self, dev: &Device, now: &Timestamp)
        ensures
            final(self)@ == (SyncManagerV {
                db: SyncDbV {
                    devices: with_stored(
                        old(self)@.db.devices,
                        handshake_device(old(self)@.db.devices, dev@, *now),
                    ),
                    ..old(self)@.db
                },
                ..old(self)@
            }),
    {
        let mut d: Device = dev.clone();
        d.is_self = false;
        d.device_secret = None;
        match self.get_device_at(dev.id.as_str(), now) {
            Some(existing) => {
                d.paired = existing.paired;
                d.alias = existing.alias;
                d.last_sync_at = existing.last_sync_at;
            },
            None => {},
        }
        assert(d@ == handshake_device(self@.db.devices, dev@, *now));
        self.save_device(&d);
    }

    /// Registers what a device says of itself in a handshake.
    pub fn refresh_peer_from_handshake(&mut self, dev: &Device)
        ensures
            exists|now: Timestamp|
                final(self)@ == (SyncManagerV {
                    db: SyncDbV {
                        devices: with_stored(
                            old(self)@.db.devices,
                            #[trigger] handshake_device(old(self)@.db.devices, dev@, now),
                        ),
                        ..old(self)@.db
                    },
                    ..old(self)@
                }),
    {
        self.refresh_peer_from_handshake_at(dev, &clock())
    }

    /// Registers the devices that an answer names, at a time.
    pub fn absorb_peer_from_at(&mut self, peers: &Vec<Device>, now: &Timestamp)
        ensures
            final(self)@ == (SyncManagerV {
                db: SyncDbV {
                    devices: introduced(
                        old(self)@.db.devices,
                        old(self)@.self_id,
                        views(peers@),
                        peers@.len(),
                        *now,
                    ),
                    ..old(self)@.db
                },
                ..old(self)@
            }),
    {
        let ghost start = self@;
        let ghost all = views(peers@);
        let mut i: usize = 0;
        while i < peers.len()
            invariant
                i <= peers.len(),
                all == views(peers@),
                self@ == (SyncManagerV {
                    db: SyncDbV {
                        devices: introduced(
                            start.db.devices,
                            start.self_id,
                            all,
                            i as nat,
                            *now,
                        ),
                        ..start.db
                    },
                    ..start
                }),
            decreases peers.len() - i,
        {
            let d: &Device = &peers[i];
            assert(all[i as int] == d@);
            if chars_of(d.id.as_str()).len() != 0 && !same(d.id.as_str(), self.self_id.as_str()) {
                self.refresh_peer_from_handshake_at(d, now);
            }
            i = i + 1;
        }
    }

    /// Registers the devices that an answer names.
    pub fn absorb_peer_from(&mut self, peers: &Vec<Device>)
        ensures
            exists|now: Timestamp|
                final(self)@ == (SyncManagerV {
                    db: SyncDbV {
                        devices: #[trigger] introduced(
                            old(self)@.db.devices,
                            old(self)@.self_id,
                            views(peers@),
                            peers@.len(),
                            now,
                        ),
                        ..old(self)@.db
                    },
                    ..old(self)@
                }),
    {
        self.absorb_peer_from_at(peers, &clock())
    }

    fn message_to(&self, peer: Device, path: &str, me: &Device, uid: &Option<String>) -> (r:
        PairMessage)
        ensures
            r@ == (PairMessageV {
                peer: peer@,
                url: endpoint_text(peer@.ip, peer@.port) + path@,
                me: on_the_wire(self@, me@, opt_text(*uid)),
            }),
    {
        let mut url: String = peer.endpoint();
        url.append(path);
        PairMessage { peer, url, me: self.with_outgoing_secret(me, uid) }
    }

    /// Prepares a request to be paired with a device, and logs it. `payload` is what the log
    /// shows of it.
    pub fn initiate_pair(
        &mut self,
        peer_id: &str,
        me: &Device,
        uid: &Option<String>,
        payload: &str,
        now: &Timestamp,
    ) -> (r: Result<PairMessage, String>)
        ensures
            message_outcome(r) == outgoing(
                old(self)@,
                peer_id@,
                "/pair/request"@,
                me@,
                opt_text(*uid),
                "未找到目标设备"@,
                *now,
            ),
            final(self)@ == asked(old(self)@, peer_id@, me@, opt_text(*uid), payload@, *now),
    {
        let peer: Device = match self.get_device_at(peer_id, now) {
            Some(p) => p,
            None => {
                return Err("未找到目标设备".to_string());
            },
        };
        let msg: PairMessage = self.message_to(peer, "/pair/request", me, uid);
        let mut text: String = "本机(".to_string();
        text.append(self.self_id.as_str());
        text.append(") 向 ");
        text.append(msg.peer.name.as_str());
        text.append("(");
        text.append(msg.peer.id.as_str());
        text.append(") 发起配对请求\n目标: ");
        text.append(msg.peer.name.as_str());
        text.append(" (");
        text.append(msg.peer.ip.as_str());
        text.append(":");
        push_decimal(&mut text, msg.peer.port as i128);
        text.append(")\nURL: ");
        text.append(msg.url.as_str());
        text.append("\n请求体: ");
        text.append(payload);
        text.append(secret_note_of(&msg.me));
        let entry: SyncLogEntry = http_log(
            SyncDirection::Out,
            SyncEventType::Pairing,
            Some(msg.peer.id.clone()),
            text,
            Some(payload.as_bytes().len() as u64),
            None,
            now,
        );
        let _ = self.db.add_log(&entry);
        Ok(msg)
    }

    /// Takes over the answer to a request to be paired; gives the safety code.
    pub fn pair_answered(
        &mut self,
        peer_id: &str,
        resp: &serde_json::Value,
        peers: &Vec<Device>,
        now: &Timestamp,
    ) -> (r: Option<String>)
        ensures
            final(self)@ == answered(
                old(self)@,
                peer_id@,
                offered_secret(*resp),
                views(peers@),
                *now,
            ),
            opt_text(r) == safety_code(final(self)@.db.secrets, old(self)@.self_id, peer_id@),
    {
        self.absorb_secret_from_at(peer_id, resp, now);
        self.absorb_peer_from_at(peers, now);
        self.db.fingerprint_with(self.self_id.as_str(), peer_id)
    }

    /// Prepares the confirmation of a pairing with a device, and logs it. `payload` is what
    /// the log shows of it.
    pub fn confirm_pair_with(
        &mut self,
        peer_id: &str,
        me: &Device,
        uid: &Option<String>,
        payload: &str,
        now: &Timestamp,
    ) -> (r: Result<PairMessage, String>)
        ensures
            message_outcome(r) == outgoing(
                old(self)@,
                peer_id@,
                "/pair/confirm"@,
                me@,
                opt_text(*uid),
                "未找到目标设备"@,
                *now,
            ),
            final(self)@ == confirming(old(self)@, peer_id@, me@, opt_text(*uid), payload@, *now),
    {
        let peer: Device = match self.get_device_at(peer_id, now) {
            Some(p) => p,
            None => {
                return Err("未找到目标设备".to_string());
            },
        };
        let msg: PairMessage = self.message_to(peer, "/pair/confirm", me, uid);
        let mut text: String = "本机(".to_string();
        text.append(self.self_id.as_str());
        text.append(") 确认与 ");
        text.append(msg.peer.name.as_str());
        text.append("(");
        text.append(msg.peer.id.as_str());
        text.append(") 配对\nURL: ");
        text.append(msg.url.as_str());
        text.append("\n请求体: ");
        text.append(payload);
        text.append(secret_note_of(&msg.me));
        let entry: SyncLogEntry = http_log(
            SyncDirection::Out,
            SyncEventType::Pairing,
            Some(msg.peer.id.clone()),
            text,
            Some(payload.as_bytes().len() as u64),
            None,
            now,
        );
        let _ = self.db.add_log(&entry);
        Ok(msg)
    }

    /// Takes over the answer to a confirmation: the pairing stands. Gives the safety code.
    pub fn confirmation_answered(
        &mut self,
        peer_id: &str,
        resp: &serde_json::Value,
        peers: &Vec<Device>,
        now: &Timestamp,
    ) -> (r: Option<String>)
        ensures
            final(self)@ == confirmed(
                old(self)@,
                peer_id@,
                offered_secret(*resp),
                views(peers@),
                *now,
            ),
            opt_text(r) == safety_code(final(self)@.db.secrets, old(self)@.self_id, peer_id@),
    {
        let code: Option<String> = self.pair_answered(peer_id, resp, peers, now);
        self.mark_paired(peer_id, true);
        self.forget_pair_request(peer_id);
        code
    }

    /// Prepares to join a device with its code.
    pub fn join_remote(
        &self,
        peer_id: &str,
        code: &str,
        me: &Device,
        uid: &Option<String>,
        now: &Timestamp,
    ) -> (r: Result<(PairMessage, String), String>)
        ensures
            match r {
                Ok(x) => Outcome::<PairMessageV>::Ok(x.0@) == outgoing(
                    self@,
                    peer_id@,
                    "/join"@,
                    me@,
                    opt_text(*uid),
                    "未找到目标设备，请先在局域网中让它出现在设备列表里"@,
                    *now,
                ) && x.1@ == trimmed(code@),
                Err(e) => Outcome::<PairMessageV>::Err(e@) == outgoing(
                    self@,
                    peer_id@,
                    "/join"@,
                    me@,
                    opt_text(*uid),
                    "未找到目标设备，请先在局域网中让它出现在设备列表里"@,
                    *now,
                ),
            },
    {
        match self.get_device_at(peer_id, now) {
            Some(peer) => Ok((self.message_to(peer, "/join", me, uid), trim(code))),
            None => Err(
                "未找到目标设备，请先在局域网中让它出现在设备列表里".to_string(),
            ),
        }
    }

    /// Takes over the answer of a device that was joined: the pairing stands. Gives the safety
    /// code.
    pub fn join_answered(
        &mut self,
        peer_id: &str,
        resp: &serde_json::Value,
        peers: &Vec<Device>,
        now: &Timestamp,
    ) -> (r: Option<String>)
        ensures
            final(self)@ == marked(
                answered(old(self)@, peer_id@, offered_secret(*resp), views(peers@), *now),
                peer_id@,
                true,
            ),
            opt_text(r) == safety_code(final(self)@.db.secrets, old(self)@.self_id, peer_id@),
    {
        let code: Option<String> = self.pair_answered(peer_id, resp, peers, now);
        self.mark_paired(peer_id, true);
        code
    }

    fn uid_known(&self, peer_id: &str) -> (r: Option<String>)
        ensures
            opt_text(r) == known_uid(self@, peer_id@),
    {
        let asked_with: Option<String> = match self.find_request(peer_id) {
            Some(i) => self.inbound_pair_requests[i].machine_uid.clone(),
            None => None,
        };
        match asked_with {
            Some(uid) => Some(uid),
            None => self.db.machine_uid_of(peer_id),
        }
    }

    /// The paired device that may be the same machine as another, at a time. It is a hint: no
    /// pairing depends on it.
    pub fn merge_candidate_for_at(&self, peer_id: &str, now: &Timestamp) -> (r: Option<MergeHint>)
        ensures
            opt_hint(r) == merge_hint(self@, peer_id@, *now),
    {
        let uid: String = match self.uid_known(peer_id) {
            Some(u) => u,
            None => {
                return None;
            },
        };
        let found: Device = match self.db.find_merge_candidate_at(uid.as_str(), peer_id, now) {
            Some(d) => d,
            None => {
                return None;
            },
        };
        match self.get_device_at(peer_id, now) {
            Some(me) => {
                if me.paired && me.paired_at.no_later_than(&found.paired_at) {
                    return None;
                }
            },
            None => {},
        }
        let days: i128 = now.days_since(&found.paired_at);
        Some(
            MergeHint {
                uid_hint: take_bytes(uid.as_str(), 8),
                paired_at: format_time(&found.paired_at),
                last_sync_at: format_opt(&found.last_sync_at),
                since_paired_days: days as i64,
                id: found.id,
                name: found.name,
                alias: found.alias,
            },
        )
    }

    /// The paired device that may be the same machine as another. It is a hint: no pairing
    /// depends on it.
    pub fn merge_candidate_for(&self, peer_id: &str) -> (r: Option<MergeHint>)
        ensures
            exists|now: Timestamp| opt_hint(r) == #[trigger] merge_hint(self@, peer_id@, now),
    {
        self.merge_candidate_for_at(peer_id, &clock())
    }
}

// ---- laws ----

/// A code lets one device join: once it was tried with success it is not valid any more.
pub proof fn law_code_is_spent(m: SyncManagerV, code: Seq<char>, now: Timestamp, later: Timestamp)
    requires
        code_valid(m.db.codes, code, now),
    ensures
        !code_valid(code_spent(m, code, now).db.codes, code, later),
{
    law_removed_code_is_invalid(m.db.codes, code, code, later);
}

/// A request that came waits for an answer, once.
pub proof fn law_request_waits(list: Seq<DeviceV>, d: DeviceV, other: Seq<char>)
    ensures
        waiting(with_request(list, d), d.id),
        request_of(with_request(list, d), d.id) == Some(d),
        other != d.id ==> (waiting(with_request(list, d), other) <==> waiting(list, other)),
        list.len() <= with_request(list, d).len() <= list.len() + 1,
{
    let w = with_request(list, d);
    if waiting(list, d.id) {
        let i = choose|i: int| 0 <= i < list.len() && (#[trigger] list[i]).id == d.id;
        assert(w[i] == d);
    } else {
        assert(w[list.len() as int] == d);
    }
    lemma_request_of(w, d.id);
    let found = request_of(w, d.id)->0;
    let j = choose|j: int| 0 <= j < w.len() && w[j] == found;
    assert(w[j] == found && found.id == d.id);
    if other != d.id {
        if waiting(w, other) {
            let k = choose|k: int| 0 <= k < w.len() && (#[trigger] w[k]).id == other;
            assert(list[k].id == other);
        }
        if waiting(list, other) {
            let k = choose|k: int| 0 <= k < list.len() && (#[trigger] list[k]).id == other;
            assert(w[k].id == other);
        }
    }
}

/// Once a confirmation is answered, the device is paired if it is known, and its request does
/// not wait any more.
pub proof fn law_confirmation_settles(
    m: SyncManagerV,
    peer_id: Seq<char>,
    offered: Option<Seq<char>>,
    peers: Seq<DeviceV>,
    now: Timestamp,
)
    ensures
        ({
            let after = confirmed(m, peer_id, offered, peers, now);
            &&& !waiting(after.inbound, peer_id)
            &&& device_row(after.db.devices, peer_id) matches Some(r)
                ==> r.paired
        }),
{
    let a = answered(m, peer_id, offered, peers, now);
    let after = confirmed(m, peer_id, offered, peers, now);
    if waiting(after.inbound, peer_id) {
        let i = choose|i: int| 0 <= i < after.inbound.len() && (#[trigger] after.inbound[i]).id
            == peer_id;
        lemma_filter_member(a.inbound, from_other(peer_id), i);
    }
    assert(peer_id.push('-').len() != peer_id.len());
    law_change_is_local(
        a.db.devices,
        peer_id,
        DeviceChangeV::Paired(true),
        peer_id.push('-'),
    );
}

/// What a device says of itself does not change whether and since when it is paired, the alias
/// that the user gave it, nor when it was last synchronised with: a device reads back with the
/// same time where the stored text is the one that the time is written as.
pub proof fn law_handshake_keeps_pairing(rows: Seq<DeviceRowV>, dev: DeviceV, now: Timestamp)
    ensures
        ({
            let after = with_stored(rows, handshake_device(rows, dev, now));
            device_row(rows, dev.id) matches Some(known) ==> {
                &&& device_row(after, dev.id) matches Some(r)
                &&& r.paired == known.paired
                &&& r.paired_at == known.paired_at
                &&& r.alias == known.alias
                &&& r.last_sync_at == opt_time_text(device_of(known, now).last_sync_at)
                &&& opt_time_text(device_of(known, now).last_sync_at) == known.last_sync_at
                    ==> device_of(r, now).last_sync_at == device_of(known, now).last_sync_at
                &&& !r.is_self
                &&& r.name == dev.name
                &&& r.ip == dev.ip
                &&& r.port == dev.port
            }
        }),
{
    law_registered_reads_back(rows, handshake_device(rows, dev, now));
}

proof fn lemma_candidate_is_listed(m: SyncManagerV, a: Seq<char>, now: Timestamp)
    requires
        distinct_ids(m.db.devices),
        merge_hint(m, a, now) is Some,
    ensures
        ({
            let found = candidate_device(m.db.devices, known_uid(m, a)->0, a, now)->0;
            found.paired && device_with_id(m.db.devices, found.id, now) == Some(found)
        }),
{
    let rows = m.db.devices;
    let uid = known_uid(m, a)->0;
    law_merge_candidate(rows, uid, a);
    let r = merge_candidate(rows, uid, a)->0;
    let i = choose|i: int| 0 <= i < rows.len() && rows[i] == r;
    assert(rows[i].id == r.id);
    lemma_device_row(rows, r.id);
    let found = device_row(rows, r.id)->0;
    let j = choose|j: int| 0 <= j < rows.len() && rows[j] == found;
    assert(rows[i].id == rows[j].id);
    assert(i == j);
}

/// Two devices are never both offered to be merged into each other.
pub proof fn law_one_hint(m: SyncManagerV, a: Seq<char>, b: Seq<char>, now: Timestamp)
    requires
        distinct_ids(m.db.devices),
        merge_hint(m, a, now) matches Some(h) && h.id == b,
    ensures
        merge_hint(m, b, now) matches Some(h) ==> h.id != a,
{
    lemma_candidate_is_listed(m, a, now);
    if merge_hint(m, b, now) is Some {
        lemma_candidate_is_listed(m, b, now);
    }
}

// ---- laws of handshakes ----

/// Whether a row holds what a device says of itself: its name, its kind, its address and port,
/// when it was last seen and whether it is online, never as the own one, and the fingerprint
/// that it brings. Where it was known, `known`, it keeps its pairing, its alias, its fingerprint
/// where it brings none, and how it was discovered.
pub open spec fn row_tells(r: DeviceRowV, known: Option<DeviceRowV>, dev: DeviceV) -> bool {
    &&& r.id == dev.id
    &&& r.name == dev.name
    &&& r.device_kind == dev.device_kind.text()
    &&& r.ip == dev.ip
    &&& r.port == dev.port
    &&& r.is_online == dev.is_online
    &&& !r.is_self
    &&& dev.last_seen_at matches Some(t) ==> r.last_seen_at == Some(time_text(t))
        && r.last_seen_epoch == Some(t.secs)
    &&& dev.last_seen_at is None ==> r.last_seen_at is None && r.last_seen_epoch is None
    &&& dev.machine_uid is Some ==> r.machine_uid == dev.machine_uid
    &&& known matches Some(k) ==> {
        &&& dev.machine_uid is None ==> r.machine_uid == k.machine_uid
        &&& r.paired == k.paired
        &&& r.paired_at == k.paired_at
        &&& r.alias == k.alias
        &&& k.last_sync_at is None <==> r.last_sync_at is None
        &&& r.seen_via == k.seen_via
        &&& r.seen_via_at == k.seen_via_at
        &&& r.superseded_by == k.superseded_by
    }
    &&& known is None ==> {
        &&& dev.machine_uid is None ==> r.machine_uid is None
        &&& r.paired == dev.paired
        &&& r.paired_at == time_text(dev.paired_at)
        &&& r.alias == dev.alias
        &&& dev.last_sync_at matches Some(t) ==> r.last_sync_at == Some(time_text(t))
        &&& dev.last_sync_at is None ==> r.last_sync_at is None
        &&& r.seen_via is None
        &&& r.superseded_by is None
    }
}

/// After a handshake the row of the device holds what it says of itself, and no other row
/// changes. The fingerprint that it brings is registered; where it brings none, the registered
/// one stays, and where it brings an empty one, none is registered.
pub proof fn law_handshake_is_registered(
    rows: Seq<DeviceRowV>,
    dev: DeviceV,
    now: Timestamp,
    other: Seq<char>,
)
    ensures
        ({
            let after = with_stored(rows, handshake_device(rows, dev, now));
            &&& device_row(after, dev.id) is Some
            &&& row_tells(device_row(after, dev.id)->0, device_row(rows, dev.id), dev)
            &&& (device_row(after, dev.id)->0).device_kind == dev.device_kind.text()
            &&& dev.machine_uid matches Some(u) ==> uid_of(after, dev.id) == (if u.len() > 0 {
                Some(u)
            } else {
                None
            })
            &&& dev.machine_uid is None ==> uid_of(after, dev.id) == uid_of(rows, dev.id)
            &&& dev.last_seen_at matches Some(t) ==> (device_row(after, dev.id)->0).last_seen_epoch
                == Some(t.secs)
            &&& other != dev.id ==> device_row(after, other) == device_row(rows, other)
            &&& other != dev.id ==> uid_of(after, other) == uid_of(rows, other)
        }),
{
    law_registered_reads_back(rows, handshake_device(rows, dev, now));
    law_registering_keeps_the_rest(rows, handshake_device(rows, dev, now), other);
}

/// Whether an answer names no device with an id among its first `n`.
pub open spec fn unnamed(peers: Seq<DeviceV>, n: nat, id: Seq<char>) -> bool {
    forall|j: int| 0 <= j < n && j < peers.len() ==> (#[trigger] peers[j]).id != id
}

proof fn lemma_unnamed_stays(
    rows: Seq<DeviceRowV>,
    self_id: Seq<char>,
    peers: Seq<DeviceV>,
    n: nat,
    now: Timestamp,
    id: Seq<char>,
)
    requires
        n <= peers.len(),
        unnamed(peers, n, id) || id == self_id || id.len() == 0,
    ensures
        device_row(introduced(rows, self_id, peers, n, now), id) == device_row(rows, id),
    decreases n,
{
    if n > 0 {
        lemma_unnamed_stays(rows, self_id, peers, (n - 1) as nat, now, id);
        let before = introduced(rows, self_id, peers, (n - 1) as nat, now);
        let d = peers[n - 1];
        if !(d.id.len() == 0 || d.id == self_id) {
            law_handshake_is_registered(before, d, now, id);
        }
    }
}

proof fn lemma_named_is_registered(
    rows: Seq<DeviceRowV>,
    self_id: Seq<char>,
    peers: Seq<DeviceV>,
    n: nat,
    now: Timestamp,
    i: int,
)
    requires
        0 <= i < n <= peers.len(),
        peers[i].id.len() > 0,
        peers[i].id != self_id,
        forall|j: int| 0 <= j < n && j != i ==> (#[trigger] peers[j]).id != peers[i].id,
    ensures
        ({
            let dev = peers[i];
            let after = introduced(rows, self_id, peers, n, now);
            &&& device_row(after, dev.id) is Some
            &&& row_tells(device_row(after, dev.id)->0, device_row(rows, dev.id), dev)
        }),
    decreases n,
{
    let before = introduced(rows, self_id, peers, (n - 1) as nat, now);
    let d = peers[n - 1];
    if i == n - 1 {
        lemma_unnamed_stays(rows, self_id, peers, (n - 1) as nat, now, d.id);
        law_handshake_is_registered(before, d, now, d.id);
    } else {
        lemma_named_is_registered(rows, self_id, peers, (n - 1) as nat, now, i);
        if !(d.id.len() == 0 || d.id == self_id) {
            law_handshake_is_registered(before, d, now, peers[i].id);
        }
    }
}

/// After an answer is taken over, the row of every device that it names once holds what that
/// device says of itself, with the fingerprint that it brings. A device that is not named, one
/// without an id and the own one stay as they are.
pub proof fn law_answer_registers_devices(
    m: SyncManagerV,
    peer_id: Seq<char>,
    offered: Option<Seq<char>>,
    peers: Seq<DeviceV>,
    now: Timestamp,
    i: int,
    other: Seq<char>,
)
    requires
        0 <= i < peers.len(),
        peers[i].id.len() > 0,
        peers[i].id != m.self_id,
        forall|j: int| 0 <= j < peers.len() && j != i ==> (#[trigger] peers[j]).id != peers[i].id,
    ensures
        ({
            let dev = peers[i];
            let after = answered(m, peer_id, offered, peers, now).db.devices;
            &&& device_row(after, dev.id) is Some
            &&& row_tells(device_row(after, dev.id)->0, device_row(m.db.devices, dev.id), dev)
            &&& dev.machine_uid matches Some(u) ==> uid_of(after, dev.id) == (if u.len() > 0 {
                Some(u)
            } else {
                None
            })
            &&& dev.machine_uid is None ==> uid_of(after, dev.id) == uid_of(m.db.devices, dev.id)
            &&& unnamed(peers, peers.len(), other) ==> device_row(after, other) == device_row(
                m.db.devices,
                other,
            )
            &&& device_row(after, m.self_id) == device_row(m.db.devices, m.self_id)
        }),
{
    let k = absorbed(m, peer_id, offered, now);
    lemma_named_is_registered(k.db.devices, k.self_id, peers, peers.len(), now, i);
    if unnamed(peers, peers.len(), other) {
        lemma_unnamed_stays(k.db.devices, k.self_id, peers, peers.len(), now, other);
    }
    lemma_unnamed_stays(k.db.devices, k.self_id, peers, peers.len(), now, k.self_id);
}

/// Once a device that was joined or whose confirmation was answered is named in the answer, it is
/// paired, and its row holds for the rest what it says of itself, with the fingerprint that it
/// brings.
pub proof fn law_paired_device_is_registered(
    m: SyncManagerV,
    offered: Option<Seq<char>>,
    peers: Seq<DeviceV>,
    now: Timestamp,
    i: int,
)
    requires
        0 <= i < peers.len(),
        peers[i].id.len() > 0,
        peers[i].id != m.self_id,
        forall|j: int| 0 <= j < peers.len() && j != i ==> (#[trigger] peers[j]).id != peers[i].id,
    ensures
        ({
            let dev = peers[i];
            let joined = marked(answered(m, dev.id, offered, peers, now), dev.id, true).db.devices;
            let confirmed = confirmed(m, dev.id, offered, peers, now).db.devices;
            let r = device_row(joined, dev.id);
            &&& device_row(confirmed, dev.id) == r
            &&& r is Some
            &&& (r->0).paired
            &&& device_row(m.db.devices, dev.id) matches Some(k) ==> row_tells(
                DeviceRowV { paired: k.paired, ..r->0 },
                Some(k),
                dev,
            )
            &&& device_row(m.db.devices, dev.id) is None ==> row_tells(
                DeviceRowV { paired: dev.paired, ..r->0 },
                None,
                dev,
            )
            &&& dev.machine_uid matches Some(u) ==> uid_of(joined, dev.id) == (if u.len() > 0 {
                Some(u)
            } else {
                None
            })
            &&& dev.machine_uid is None ==> uid_of(joined, dev.id) == uid_of(
                m.db.devices,
                dev.id,
            )
        }),
{
    let dev = peers[i];
    let a = answered(m, dev.id, offered, peers, now);
    law_answer_registers_devices(m, dev.id, offered, peers, now, i, dev.id);
    law_column_is_set(a.db.devices, dev.id, None, true);
}

/// Marking a device as paired or not changes that of its row and nothing else.
pub proof fn law_marking_is_local(m: SyncManagerV, peer_id: Seq<char>, paired: bool, other: Seq<char>)
    ensures
        device_row(m.db.devices, peer_id) matches Some(k) ==> device_row(
            marked(m, peer_id, paired).db.devices,
            peer_id,
        ) == Some(DeviceRowV { paired, ..k }),
        other != peer_id ==> device_row(marked(m, peer_id, paired).db.devices, other)
            == device_row(m.db.devices, other),
        marked(m, peer_id, paired) == (SyncManagerV {
            db: SyncDbV { devices: marked(m, peer_id, paired).db.devices, ..m.db },
            ..m
        }),
{
    if device_row(m.db.devices, peer_id) is Some {
        law_column_is_set(m.db.devices, peer_id, None, paired);
    }
    if other != peer_id {
        law_change_is_local(m.db.devices, peer_id, DeviceChangeV::Paired(paired), other);
    }
}

/// A request that is forgotten does not wait any more, and every other one does as before.
pub proof fn law_forgotten_request_is_gone(list: Seq<DeviceV>, id: Seq<char>, d: DeviceV)
    ensures
        !waiting(list.filter(from_other(id)), id),
        list.filter(from_other(id)).contains(d) <==> list.contains(d) && d.id != id,
{
    let p = from_other(id);
    let kept = list.filter(p);
    if waiting(kept, id) {
        let i = choose|i: int| 0 <= i < kept.len() && (#[trigger] kept[i]).id == id;
        lemma_filter_member(list, p, i);
    }
    if list.contains(d) && p(d) {
        lemma_filter_keeps(list, p, d);
    }
    if kept.contains(d) {
        let k = choose|k: int| 0 <= k < kept.len() && kept[k] == d;
        lemma_filter_member(list, p, k);
    }
}

/// A request that comes waits as it came, those of other devices wait as before, and it is
/// logged as coming in from its device.
pub proof fn law_request_is_noted(m: SyncManagerV, d: DeviceV, now: Timestamp)
    ensures
        ({
            let after = with_inbound(m, d, now);
            let e = after.db.logs.last();
            &&& request_of(after.inbound, d.id) == Some(d)
            &&& after.db.devices == m.db.devices
            &&& after.db.secrets == m.db.secrets
            &&& m.db.last_log_id < i64::MAX ==> {
                &&& after.db.logs.len() > 0
                &&& e.timestamp == time_text(now)
                &&& e.direction == "in"@
                &&& e.protocol == "http"@
                &&& e.event_type == "pairing"@
                &&& e.status == "success"@
                &&& e.peer_id == Some(d.id)
                &&& e.message == Some(
                    "本机("@ + m.self_id + ") 收到配对请求: "@ + d.name + "("@ + d.id + ":"@ + d.ip
                        + " - "@ + decimal(d.port as int) + ")"@,
                )
            }
        }),
{
    law_request_waits(m.inbound, d, d.id);
}

/// The ids of the requests that wait are those of the requests, in their order.
pub proof fn law_waiting_ids(list: Seq<DeviceV>, id: Seq<char>)
    ensures
        ids_of(list).len() == list.len(),
        ids_of(list).contains(id) <==> waiting(list, id),
{
    if ids_of(list).contains(id) {
        let i = choose|i: int| 0 <= i < list.len() && ids_of(list)[i] == id;
        assert(list[i].id == id);
    }
    if waiting(list, id) {
        let i = choose|i: int| 0 <= i < list.len() && (#[trigger] list[i]).id == id;
        assert(ids_of(list)[i] == id);
    }
}

/// A device that comes with a valid code joins as it says, paired and not as the own one, and
/// the code is spent and no other; with any other code nothing changes.
pub proof fn law_valid_code_lets_join(
    m: SyncManagerV,
    code: Seq<char>,
    device: DeviceV,
    now: Timestamp,
    other: Seq<char>,
    later: Timestamp,
)
    ensures
        code_tried(m, code, device, now) is Ok <==> code_valid(m.db.codes, code, now),
        code_tried(m, code, device, now) matches Ok(d) ==> d == (DeviceV {
            is_self: false,
            paired: true,
            ..device
        }),
        code_tried(m, code, device, now) matches Err(e) ==> e == PairError::InvalidOrExpiredCode
            && code_spent(m, code, now) == m,
        other != code ==> code_valid(code_spent(m, code, now).db.codes, other, later)
            == code_valid(m.db.codes, other, later),
        code_spent(m, code, now).db.devices == m.db.devices,
        code_spent(m, code, now).db.secrets == m.db.secrets,
{
    law_removed_code_is_invalid(m.db.codes, code, other, later);
}

/// A message to a known device goes to its address under the path, and carries the own device
/// with its fingerprint and with the secret that is shared under its id; to a device that is not
/// known there is none.
pub proof fn law_message_goes_to_the_device(
    m: SyncManagerV,
    peer_id: Seq<char>,
    path: Seq<char>,
    me: DeviceV,
    uid: Option<Seq<char>>,
    unknown: Seq<char>,
    now: Timestamp,
)
    ensures
        outgoing(m, peer_id, path, me, uid, unknown, now) is Ok <==> device_row(
            m.db.devices,
            peer_id,
        ) is Some,
        outgoing(m, peer_id, path, me, uid, unknown, now) matches Err(e) ==> e == unknown,
        outgoing(m, peer_id, path, me, uid, unknown, now) matches Ok(x) ==> {
            let r = device_row(m.db.devices, peer_id)->0;
            &&& x.peer.id == peer_id
            &&& x.peer.ip == r.ip
            &&& x.peer.port == r.port
            &&& x.url == "http://"@ + r.ip + ":"@ + decimal(r.port as int) + "/api/0/sync"@ + path
            &&& x.me == (DeviceV {
                device_secret: secret_of(m.db.secrets, me.id),
                machine_uid: uid,
                ..me
            })
        },
{
    lemma_device_row(m.db.devices, peer_id);
}

/// Asking a device and confirming to it are logged as going out to it, with the size of what is
/// sent, and change nothing else; where the device is not known nothing happens.
pub proof fn law_pairing_messages_are_logged(
    m: SyncManagerV,
    peer_id: Seq<char>,
    me: DeviceV,
    uid: Option<Seq<char>>,
    payload: Seq<char>,
    now: Timestamp,
)
    ensures
        ({
            let ask = asked(m, peer_id, me, uid, payload, now);
            let confirm = confirming(m, peer_id, me, uid, payload, now);
            &&& device_row(m.db.devices, peer_id) is None ==> ask == m && confirm == m
            &&& ask.db.devices == m.db.devices && confirm.db.devices == m.db.devices
            &&& ask.db.secrets == m.db.secrets && confirm.db.secrets == m.db.secrets
            &&& ask.inbound == m.inbound && confirm.inbound == m.inbound
            &&& device_row(m.db.devices, peer_id) is Some && m.db.last_log_id < i64::MAX ==> {
                let a = ask.db.logs.last();
                let c = confirm.db.logs.last();
                &&& ask.db.logs.len() > 0 && confirm.db.logs.len() > 0
                &&& a.timestamp == time_text(now) && c.timestamp == time_text(now)
                &&& a.direction == "out"@ && c.direction == "out"@
                &&& a.protocol == "http"@ && c.protocol == "http"@
                &&& a.event_type == "pairing"@ && c.event_type == "pairing"@
                &&& a.status == "success"@ && c.status == "success"@
                &&& a.peer_id == Some(peer_id) && c.peer_id == Some(peer_id)
                &&& a.data_size == c.data_size && a.data_size is Some
                &&& byte_len(payload) <= i64::MAX ==> a.data_size == Some(byte_len(payload) as i64)
            }
        }),
{
    lemma_device_row(m.db.devices, peer_id);
}

/// A hint is on a paired device of the same machine under another id: with its name and its
/// alias, and with no more than eight bytes of the fingerprint. Where the asked device is paired
/// itself, it was paired later.
pub proof fn law_hint_is_on_the_same_machine(m: SyncManagerV, peer_id: Seq<char>, now: Timestamp)
    ensures
        merge_hint(m, peer_id, now) matches Some(h) ==> {
            &&& known_uid(m, peer_id) is Some
            &&& merge_candidate(m.db.devices, known_uid(m, peer_id)->0, peer_id) matches Some(r)
            &&& r.machine_uid == known_uid(m, peer_id)
            &&& r.paired && r.id != peer_id && !r.is_self && r.superseded_by is None
            &&& h.id == r.id
            &&& h.name == r.name
            &&& h.alias == r.alias
            &&& h.uid_hint == byte_prefix(known_uid(m, peer_id)->0, 8)
            &&& forall|t: Timestamp|
                reads_back(t) && r.paired_at == #[trigger] time_text(t) ==> h.paired_at
                    == r.paired_at && h.since_paired_days == whole(
                    seconds_between(t.ns(), now.ns()),
                    86400,
                )
        },
        known_uid(m, peer_id) is None ==> merge_hint(m, peer_id, now) is None,
        known_uid(m, peer_id) matches Some(u) && merge_candidate(m.db.devices, u, peer_id) is Some
            && device_row(m.db.devices, peer_id) is None ==> merge_hint(m, peer_id, now) is Some,
        known_uid(m, peer_id) matches Some(u) && merge_candidate(m.db.devices, u, peer_id) is Some
            && (device_row(m.db.devices, peer_id) matches Some(me) && !me.paired) ==> merge_hint(
            m,
            peer_id,
            now,
        ) is Some,
{
    match known_uid(m, peer_id) {
        Some(u) => {
            crate::storage::identity::law_candidate_is_the_same_machine(
                m.db.devices,
                u,
                peer_id,
            );
        },
        None => {},
    }
}

/// The fingerprint that a request brings goes before the registered one.
pub proof fn law_request_tells_the_fingerprint(m: SyncManagerV, peer_id: Seq<char>)
    ensures
        request_of(m.inbound, peer_id) matches Some(d) && d.machine_uid is Some ==> known_uid(
            m,
            peer_id,
        ) == (request_of(m.inbound, peer_id)->0).machine_uid,
        request_of(m.inbound, peer_id) is None ==> known_uid(m, peer_id) == uid_of(
            m.db.devices,
            peer_id,
        ),
        (request_of(m.inbound, peer_id) matches Some(d) && d.machine_uid is None) ==> known_uid(
            m,
            peer_id,
        ) == uid_of(m.db.devices, peer_id),
{
}

/// The log tells of asking and of confirming who sends and to whom, to which address, what is
/// shown of the message, and whether a secret comes with it, but never the secret.
pub proof fn law_pairing_messages_tell_the_peer(
    m: SyncManagerV,
    peer_id: Seq<char>,
    me: DeviceV,
    uid: Option<Seq<char>>,
    payload: Seq<char>,
    now: Timestamp,
)
    requires
        device_row(m.db.devices, peer_id) is Some,
        m.db.last_log_id < i64::MAX,
    ensures
        ({
            let r = device_row(m.db.devices, peer_id)->0;
            let url = "http://"@ + r.ip + ":"@ + decimal(r.port as int) + "/api/0/sync"@;
            let note = if secret_of(m.db.secrets, me.id) is Some {
                "\n密钥: 随报文附带（日志不落密钥）"@
            } else {
                "\n密钥: 本次由对端生成后交换"@
            };
            let ask = asked(m, peer_id, me, uid, payload, now).db.logs.last();
            let confirm = confirming(m, peer_id, me, uid, payload, now).db.logs.last();
            &&& ask.message == Some(
                "本机("@ + m.self_id + ") 向 "@ + r.name + "("@ + peer_id
                    + ") 发起配对请求\n目标: "@ + r.name + " ("@ + r.ip + ":"@ + decimal(
                    r.port as int,
                ) + ")\nURL: "@ + (url + "/pair/request"@) + "\n请求体: "@ + payload + note,
            )
            &&& confirm.message == Some(
                "本机("@ + m.self_id + ") 确认与 "@ + r.name + "("@ + peer_id + ") 配对\nURL: "@ + (
                url + "/pair/confirm"@) + "\n请求体: "@ + payload + note,
            )
        }),
{
    lemma_device_row(m.db.devices, peer_id);
}

/// Of a device that is paired there is a hint exactly where it was paired later than the device
/// of the same machine that was paired first.
pub proof fn law_hint_is_on_the_earlier_device(m: SyncManagerV, peer_id: Seq<char>, now: Timestamp)
    requires
        device_with_id(m.db.devices, peer_id, now) matches Some(me) && me.paired,
    ensures
        merge_hint(m, peer_id, now) is Some <==> known_uid(m, peer_id) is Some && (candidate_device(
            m.db.devices,
            known_uid(m, peer_id)->0,
            peer_id,
            now,
        ) matches Some(first) && first.paired_at.ns() < (device_with_id(
            m.db.devices,
            peer_id,
            now,
        )->0).paired_at.ns()),
{
}

/// A usable secret in an answer is shared with its sender from then on, and what waits for an
/// answer stays.
pub proof fn law_answer_shares_the_secret(
    m: SyncManagerV,
    peer_id: Seq<char>,
    offered: Option<Seq<char>>,
    peers: Seq<DeviceV>,
    now: Timestamp,
    other: Seq<char>,
)
    ensures
        ({
            let after = answered(m, peer_id, offered, peers, now);
            &&& (offered matches Some(s) && crate::crypto::is_secret(s)) ==> secret_of(
                after.db.secrets,
                peer_id,
            ) == offered
            &&& !(offered matches Some(s) && crate::crypto::is_secret(s)) ==> after.db.secrets
                == m.db.secrets
            &&& other != peer_id ==> secret_of(after.db.secrets, other) == secret_of(
                m.db.secrets,
                other,
            )
            &&& after.inbound == m.inbound
            &&& after.db.logs == m.db.logs
            &&& after.db.config == m.db.config
        }),
{
    crate::manager::keys::law_answered_secret_counts(m, peer_id, offered, now, other);
}

/// Once a confirmation is answered, the requests of other devices still wait, and the secret in
/// the answer is shared.
pub proof fn law_confirmation_spares_other_requests(
    m: SyncManagerV,
    peer_id: Seq<char>,
    offered: Option<Seq<char>>,
    peers: Seq<DeviceV>,
    now: Timestamp,
    d: DeviceV,
)
    ensures
        confirmed(m, peer_id, offered, peers, now).inbound.contains(d) <==> m.inbound.contains(d)
            && d.id != peer_id,
        confirmed(m, peer_id, offered, peers, now).db.secrets == answered(
            m,
            peer_id,
            offered,
            peers,
            now,
        ).db.secrets,
{
    law_forgotten_request_is_gone(m.inbound, peer_id, d);
}

} // verus!
