//! What this device says of itself.

use vstd::prelude::*;
use vstd::string::*;

use crate::manager::{SyncManager, SyncManagerV};
use crate::models::{Device, DeviceKind, DeviceV, SyncConfig, Timestamp};
use crate::outside::clock;
use crate::storage::config::config_of;
use crate::storage::secrets::secret_of;
use crate::text::{byte_prefix, chars_of, opt_text, remove_char, same, take_bytes, without_char};

verus! {

/// What the machine says of itself.
#[derive(Debug)]
pub struct Host {
    /// The host name.
    pub name: String,
    pub kind: DeviceKind,
    /// The local address; empty where there is none.
    pub ip: String,
}

/// The contents of a [`Host`].
pub struct HostV {
    pub name: Seq<char>,
    pub kind: DeviceKind,
    pub ip: Seq<char>,
}

impl View for Host {
    type V = HostV;

    open spec fn view(&self) -> HostV {
        HostV { name: self.name@, kind: self.kind, ip: self.ip@ }
    }
}

/// A readable name for a kind of device.
pub open spec fn label(kind: DeviceKind) -> Seq<char> {
    match kind {
        DeviceKind::Android => "Android"@,
        DeviceKind::Windows => "Windows"@,
        DeviceKind::Linux => "Linux"@,
        DeviceKind::Macos => "MacOS"@,
        DeviceKind::Ios => "iOS"@,
        DeviceKind::Unknown => "Device"@,
    }
}

/// A readable name for a kind of device.
pub fn device_kind_label(kind: DeviceKind) -> (r: &'static str)
    ensures
        r@ == label(kind),
{
    match kind {
        DeviceKind::Android => "Android",
        DeviceKind::Windows => "Windows",
        DeviceKind::Linux => "Linux",
        DeviceKind::Macos => "MacOS",
        DeviceKind::Ios => "iOS",
        DeviceKind::Unknown => "Device",
    }
}

/// Whether a host name tells devices apart.
pub open spec fn telling(host: Seq<char>) -> bool {
    host.len() > 0 && host != "localhost"@ && host != "localhost.localdomain"@ && host != "(none)"@
}

/// The name of this device: the alias, else the host name where it tells devices apart, else
/// the kind with the beginning of the id.
pub open spec fn own_name(alias: Seq<char>, self_id: Seq<char>, host: HostV) -> Seq<char> {
    if alias.len() > 0 {
        alias
    } else if telling(host.name) {
        host.name
    } else {
        label(host.kind) + "-"@ + byte_prefix(without_char(self_id, '-'), 6)
    }
}

/// This device as it is shown and announced. Neither a secret nor a fingerprint is part of it.
pub open spec fn own_device(m: SyncManagerV, host: HostV, now: Timestamp) -> DeviceV {
    let cfg = config_of(m.db.config);
    DeviceV {
        id: m.self_id,
        name: own_name(cfg.self_alias, m.self_id, host),
        device_kind: host.kind,
        ip: host.ip,
        port: cfg.listen_port,
        paired_at: now,
        last_sync_at: None,
        last_seen_at: Some(now),
        is_online: true,
        is_self: true,
        paired: false,
        alias: if cfg.self_alias.len() == 0 {
            None
        } else {
            Some(cfg.self_alias)
        },
        device_secret: None,
        machine_uid: None,
    }
}

/// A device as a pairing message carries it: with the fingerprint of the installation.
pub open spec fn on_the_wire(m: SyncManagerV, d: DeviceV, uid: Option<Seq<char>>) -> DeviceV {
    DeviceV { device_secret: secret_of(m.db.secrets, d.id), machine_uid: uid, ..d }
}

fn is_telling(host: &str) -> (r: bool)
    ensures
        r == telling(host@),
{
    chars_of(host).len() > 0 && !same(host, "localhost") && !same(host, "localhost.localdomain")
        && !same(host, "(none)")
}

impl SyncManager {
    /// This device as it is shown and announced, at a time.
    pub fn self_device_info_at(&self, host: &Host, now: &Timestamp) -> (r: Device)
        ensures
            r@ == own_device(self@, host@, *now),
    {
        let cfg: SyncConfig = self.get_config();
        let aliased: bool = chars_of(cfg.self_alias.as_str()).len() > 0;
        let name: String = if aliased {
            cfg.self_alias.clone()
        } else if is_telling(host.name.as_str()) {
            host.name.clone()
        } else {
            let short: String = take_bytes(remove_char(self.self_id.as_str(), '-').as_str(), 6);
            let mut s: String = device_kind_label(host.kind).to_string();
            s.append("-");
            s.append(short.as_str());
            s
        };
        Device {
            id: self.self_id.clone(),
            name,
            device_kind: host.kind,
            ip: host.ip.clone(),
            port: cfg.listen_port,
            paired_at: *now,
            last_sync_at: None,
            last_seen_at: Some(*now),
            is_online: true,
            is_self: true,
            paired: false,
            alias: if aliased {
                Some(cfg.self_alias)
            } else {
                None
            },
            device_secret: None,
            machine_uid: None,
        }
    }

    /// This device as it is shown and announced.
    pub fn self_device_info(&self, host: &Host) -> (r: Device)
        ensures
            exists|now: Timestamp| r@ == #[trigger] own_device(self@, host@, now),
    {
        self.self_device_info_at(host, &clock())
    }

    /// A device as a pairing message carries it.
    pub fn with_outgoing_secret(&self, peer: &Device, uid: &Option<String>) -> (r: Device)
        ensures
            r@ == on_the_wire(self@, peer@, opt_text(*uid)),
    {
        let mut d: Device = peer.clone();
        d.device_secret = self.device_secret(peer.id.as_str());
        d.machine_uid = uid.clone();
        d
    }
}

/// What is shown and announced never carries a secret or a fingerprint, and always has a name.
pub proof fn law_own_device_is_discreet(m: SyncManagerV, host: HostV, now: Timestamp)
    ensures
        own_device(m, host, now).device_secret is None,
        own_device(m, host, now).machine_uid is None,
        own_device(m, host, now).name.len() > 0,
        own_device(m, host, now).is_self,
{
    reveal_strlit("-");
    assert("-"@.len() == 1);
}

/// This device is shown under its id, with the address of the host and the port of the settings,
/// online and just seen. Its name is the alias of the settings where there is one, else the host
/// name where that tells devices apart, else one that begins with its kind.
pub proof fn law_own_device_is_as_set(m: SyncManagerV, host: HostV, now: Timestamp)
    ensures
        ({
            let d = own_device(m, host, now);
            let alias = config_of(m.db.config).self_alias;
            &&& d.id == m.self_id
            &&& d.ip == host.ip
            &&& d.port == config_of(m.db.config).listen_port
            &&& d.device_kind == host.kind
            &&& d.is_online && d.is_self && !d.paired
            &&& d.paired_at == now
            &&& d.last_seen_at == Some(now)
            &&& d.last_sync_at is None
            &&& alias.len() > 0 ==> d.name == alias && d.alias == Some(alias)
            &&& alias.len() == 0 ==> d.alias is None
            &&& alias.len() == 0 && host.name.len() > 0 && host.name != "localhost"@ && host.name
                != "localhost.localdomain"@ && host.name != "(none)"@ ==> d.name == host.name
            &&& alias.len() == 0 && (host.name.len() == 0 || host.name == "localhost"@ || host.name
                == "localhost.localdomain"@ || host.name == "(none)"@) ==> d.name == label(host.kind)
                + "-"@ + byte_prefix(without_char(m.self_id, '-'), 6)
        }),
{
}

/// Once settings are stored, this device is shown under the alias that they hold and with their
/// port, where that is not zero.
pub proof fn law_own_device_follows_stored_settings(
    m: SyncManagerV,
    cfg: crate::models::SyncConfigV,
    host: HostV,
    now: Timestamp,
)
    ensures
        ({
            let after = SyncManagerV {
                db: crate::storage::SyncDbV {
                    config: crate::storage::config::with_config(m.db.config, cfg),
                    ..m.db
                },
                ..m
            };
            let d = own_device(after, host, now);
            &&& cfg.self_alias.len() > 0 ==> d.name == cfg.self_alias && d.alias == Some(
                cfg.self_alias,
            )
            &&& cfg.self_alias.len() == 0 ==> d.alias is None
            &&& cfg.listen_port != 0 ==> d.port == cfg.listen_port
        }),
{
    crate::storage::config::law_config_reads_back(m.db.config, cfg);
}

/// What a pairing message carries is the device itself, with the secret shared under its id and
/// with the fingerprint.
pub proof fn law_wire_carries_the_device(m: SyncManagerV, d: DeviceV, uid: Option<Seq<char>>)
    ensures
        on_the_wire(m, d, uid).machine_uid == uid,
        on_the_wire(m, d, uid).device_secret == secret_of(m.db.secrets, d.id),
        on_the_wire(m, d, uid) == (DeviceV {
            device_secret: on_the_wire(m, d, uid).device_secret,
            machine_uid: on_the_wire(m, d, uid).machine_uid,
            ..d
        }),
{
}

/// No two kinds of device have the same readable name.
pub proof fn law_labels_differ(a: DeviceKind, b: DeviceKind)
    ensures
        label(a) == label(b) ==> a == b,
        label(a).len() > 0,
{
    reveal_strlit("Android");
    reveal_strlit("Windows");
    reveal_strlit("Linux");
    reveal_strlit("MacOS");
    reveal_strlit("iOS");
    reveal_strlit("Device");
    assert("Android"@[0] == 'A' && "Windows"@[0] == 'W' && "Linux"@[0] == 'L' && "MacOS"@[0] == 'M'
        && "iOS"@[0] == 'i' && "Device"@[0] == 'D');
}

} // verus!
