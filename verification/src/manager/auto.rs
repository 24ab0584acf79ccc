//! Decisions of the loop that synchronises with paired devices by itself.

use vstd::prelude::*;

use crate::models::{Device, DeviceV, SyncConfig, SyncConfigV};
use crate::stamps::{Stamps, Table};
use crate::storage::config::{config_of, law_config_reads_back, with_config};
use crate::storage::ConfigRowV;
use crate::text::same;

verus! {

/// How often a device that is offline is tried all the same, in milliseconds.
pub const OFFLINE_RETRY_MS: i64 = 30_000;

/// How long a discovery window lasts that is opened for a device that does not answer, in
/// seconds.
pub const REDISCOVER_WINDOW_SECS: u64 = 6;

/// How long the loop waits for announcements within it, in milliseconds.
pub const REDISCOVER_WAIT_MS: u64 = 3_000;

/// How far apart such windows are at least, in milliseconds.
pub const REDISCOVER_MIN_INTERVAL_MS: i64 = 30_000;

/// The state of the loop.
pub struct AutoSync {
    /// Whether the last round was on.
    pub prev_enabled: bool,
    /// Whether each device was online when it was last looked at.
    pub prev_online: Table<bool>,
    /// When each device that was offline was last tried.
    pub offline_probe_at: Stamps,
    /// When a discovery window was last opened.
    pub last_rediscover: Option<i64>,
}

/// The contents of an [`AutoSync`].
pub struct AutoSyncV {
    pub prev_enabled: bool,
    pub prev_online: Map<Seq<char>, bool>,
    pub offline_probe_at: Map<Seq<char>, i64>,
    pub last_rediscover: Option<i64>,
}

impl View for AutoSync {
    type V = AutoSyncV;

    open spec fn view(&self) -> AutoSyncV {
        AutoSyncV {
            prev_enabled: self.prev_enabled,
            prev_online: self.prev_online@,
            offline_probe_at: self.offline_probe_at@,
            last_rediscover: self.last_rediscover,
        }
    }
}

/// A round of the loop.
#[derive(Debug, Clone, Copy, PartialEq, Eq, Structural)]
pub struct Round {
    /// Whether devices are looked at.
    pub enabled: bool,
    /// Whether every paired device is tried, whatever its state.
    pub force: bool,
    /// How long to wait afterwards, in seconds.
    pub interval_secs: u64,
}

/// What a round is like, by the settings; without settings nothing is done.
pub open spec fn round_of(s: AutoSyncV, cfg: Option<SyncConfigV>) -> Round {
    match cfg {
        Some(c) => {
            let enabled = c.enabled && c.sync_interval > 0;
            Round {
                enabled,
                force: enabled && !s.prev_enabled,
                interval_secs: wait_between(cfg),
            }
        },
        None => Round { enabled: false, force: false, interval_secs: wait_between(cfg) },
    }
}

/// How long to wait between rounds, in seconds, by the settings.
pub open spec fn wait_between(cfg: Option<SyncConfigV>) -> u64 {
    match cfg {
        Some(c) => if c.sync_interval < 5 {
            5
        } else {
            c.sync_interval
        },
        None => 10,
    }
}

/// How long to wait between rounds, in seconds, by the settings.
pub fn wait_secs(cfg: &Option<SyncConfig>) -> (r: u64)
    ensures
        r == wait_between(opt_config(*cfg)),
{
    match cfg {
        Some(c) => if c.sync_interval < 5 {
            5
        } else {
            c.sync_interval
        },
        None => 10,
    }
}

/// The contents of optional settings.
pub open spec fn opt_config(cfg: Option<SyncConfig>) -> Option<SyncConfigV> {
    match cfg {
        Some(c) => Some(c@),
        None => None,
    }
}

/// What to do with a device.
#[derive(Debug, Clone, Copy, PartialEq, Eq, Structural)]
pub enum DeviceStep {
    /// Nothing in this round.
    Skip,
    /// See whether it answers, and synchronise if it does.
    Probe,
}

/// Whether a change of state is worth a message.
#[derive(Debug, Clone, Copy, PartialEq, Eq, Structural)]
pub enum Notice {
    /// It is as it was.
    Unchanged,
    /// It has come back.
    CameBack,
    /// It has gone.
    WentOffline,
}

/// Whether a device was online when it was last looked at.
pub open spec fn was_online(s: AutoSyncV, id: Seq<char>) -> bool {
    s.prev_online.contains_key(id) && s.prev_online[id]
}

/// Whether a paired device is online that was not when it was last looked at, while devices are
/// synchronised with by themselves.
pub open spec fn has_come_back(s: AutoSyncV, cfg: Option<SyncConfigV>, d: DeviceV) -> bool {
    round_of(s, cfg).enabled && d.paired && !d.is_self && d.is_online && !was_online(s, d.id)
}

/// Whether a device that is offline is due to be tried again.
pub open spec fn probe_due(s: AutoSyncV, id: Seq<char>, tick: i64) -> bool {
    !(s.offline_probe_at.contains_key(id) && tick - s.offline_probe_at[id] < OFFLINE_RETRY_MS)
}

/// What is done with a device, whether its state changed, and the state of the loop after it.
pub open spec fn device_next(s: AutoSyncV, d: DeviceV, force: bool, tick: i64) -> (
    DeviceStep,
    Notice,
    AutoSyncV,
) {
    if !d.paired || d.is_self {
        (DeviceStep::Skip, Notice::Unchanged, s)
    } else {
        let notice = if d.is_online && !was_online(s, d.id) {
            Notice::CameBack
        } else if was_online(s, d.id) && !d.is_online {
            Notice::WentOffline
        } else {
            Notice::Unchanged
        };
        let noted = AutoSyncV { prev_online: s.prev_online.insert(d.id, d.is_online), ..s };
        if d.is_online {
            (
                DeviceStep::Probe,
                notice,
                AutoSyncV { offline_probe_at: s.offline_probe_at.remove(d.id), ..noted },
            )
        } else if probe_due(s, d.id, tick) || force {
            (
                DeviceStep::Probe,
                notice,
                AutoSyncV { offline_probe_at: s.offline_probe_at.insert(d.id, tick), ..noted },
            )
        } else {
            (DeviceStep::Skip, notice, noted)
        }
    }
}

/// What to do after a device did not answer.
#[derive(Debug, Clone, Copy, PartialEq, Eq, Structural)]
pub enum FailureStep {
    /// Nothing more in this round.
    GiveUp,
    /// Open a discovery window of some seconds, wait some milliseconds, read the device anew
    /// and see whether it answers now.
    Rediscover(u64, u64),
}

/// Whether a discovery window may be opened.
pub open spec fn may_rediscover(s: AutoSyncV, force: bool, tick: i64) -> bool {
    force || !(s.last_rediscover matches Some(t) && tick - t < REDISCOVER_MIN_INTERVAL_MS)
}

impl AutoSync {
    /// The state before the first round.
    pub fn new() -> (r: AutoSync)
        ensures
            r@ == (AutoSyncV {
                prev_enabled: false,
                prev_online: Map::empty(),
                offline_probe_at: Map::empty(),
                last_rediscover: None,
            }),
    {
        AutoSync {
            prev_enabled: false,
            prev_online: Table::new(),
            offline_probe_at: Table::new(),
            last_rediscover: None,
        }
    }

    /// Begins a round. One that is on after one that was off tries every paired device.
    pub fn begin(&mut self, cfg: &Option<SyncConfig>) -> (r: Round)
        ensures
            r == round_of(old(self)@, opt_config(*cfg)),
            final(self)@ == (AutoSyncV { prev_enabled: r.enabled, ..old(self)@ }),
    {
        let was: bool = self.prev_enabled;
        match cfg {
            Some(c) => {
                let enabled: bool = c.enabled && c.sync_interval > 0;
                self.prev_enabled = enabled;
                Round { enabled, force: enabled && !was, interval_secs: wait_secs(cfg) }
            },
            None => {
                self.prev_enabled = false;
                Round { enabled: false, force: false, interval_secs: wait_secs(cfg) }
            },
        }
    }

    /// Whether synchronisation was switched on since the last round, so that the next one does
    /// not wait.
    pub fn switched_on(&self, cfg: &Option<SyncConfig>) -> (r: bool)
        ensures
            r == round_of(self@, opt_config(*cfg)).force,
    {
        match cfg {
            Some(c) => c.enabled && c.sync_interval > 0 && !self.prev_enabled,
            None => false,
        }
    }

    /// Whether a device came back since it was last looked at, so that it is synchronised with
    /// before the next round.
    pub fn came_back(&self, cfg: &Option<SyncConfig>, d: &Device) -> (r: bool)
        ensures
            r == has_come_back(self@, opt_config(*cfg), d@),
    {
        let enabled: bool = match cfg {
            Some(c) => c.enabled && c.sync_interval > 0,
            None => false,
        };
        let before: bool = match self.prev_online.get(d.id.as_str()) {
            Some(b) => b,
            None => false,
        };
        enabled && d.paired && !d.is_self && d.is_online && !before
    }

    /// Decides what to do with a device. `tick` is a steady clock in milliseconds.
    pub fn consider(&mut self, d: &Device, force: bool, tick: i64) -> (r: (DeviceStep, Notice))
        ensures
            (r.0, r.1, final(self)@) == device_next(old(self)@, d@, force, tick),
    {
        if !d.paired || d.is_self {
            return (DeviceStep::Skip, Notice::Unchanged);
        }
        let before: bool = match self.prev_online.get(d.id.as_str()) {
            Some(b) => b,
            None => false,
        };
        self.prev_online.insert(d.id.as_str(), d.is_online);
        let notice: Notice = if d.is_online && !before {
            Notice::CameBack
        } else if before && !d.is_online {
            Notice::WentOffline
        } else {
            Notice::Unchanged
        };
        if d.is_online {
            self.offline_probe_at.remove(d.id.as_str());
            return (DeviceStep::Probe, notice);
        }
        let due: bool = match self.offline_probe_at.get(d.id.as_str()) {
            Some(t) => (tick as i128 - t as i128) >= OFFLINE_RETRY_MS as i128,
            None => true,
        };
        if !due && !force {
            return (DeviceStep::Skip, notice);
        }
        self.offline_probe_at.insert(d.id.as_str(), tick);
        (DeviceStep::Probe, notice)
    }

    /// Decides what to do after a device did not answer.
    pub fn unanswered(&mut self, force: bool, tick: i64) -> (r: FailureStep)
        ensures
            r == (if may_rediscover(old(self)@, force, tick) {
                FailureStep::Rediscover(REDISCOVER_WINDOW_SECS, REDISCOVER_WAIT_MS)
            } else {
                FailureStep::GiveUp
            }),
            final(self)@ == (if may_rediscover(old(self)@, force, tick) {
                AutoSyncV { last_rediscover: Some(tick), ..old(self)@ }
            } else {
                old(self)@
            }),
    {
        let recent: bool = match self.last_rediscover {
            Some(t) => (tick as i128 - t as i128) < REDISCOVER_MIN_INTERVAL_MS as i128,
            None => false,
        };
        if recent && !force {
            return FailureStep::GiveUp;
        }
        self.last_rediscover = Some(tick);
        FailureStep::Rediscover(REDISCOVER_WINDOW_SECS, REDISCOVER_WAIT_MS)
    }
}

/// The position of the device with an id; none where there is none.
pub open spec fn position_of(list: Seq<DeviceV>, id: Seq<char>) -> Option<int>
    decreases list.len(),
{
    if list.len() == 0 {
        None
    } else if list[0].id == id {
        Some(0)
    } else {
        match position_of(list.drop_first(), id) {
            Some(i) => Some(i + 1),
            None => None,
        }
    }
}

/// The device as it is listed now; as it was where it is not listed any more.
pub open spec fn refreshed(list: Seq<DeviceV>, d: DeviceV) -> DeviceV {
    match position_of(list, d.id) {
        Some(i) => list[i],
        None => d,
    }
}

/// The device as it is listed now; as it was where it is not listed any more.
pub fn refresh(list: &Vec<Device>, d: &Device) -> (r: Device)
    ensures
        r@ == refreshed(crate::models::views(list@), d@),
{
    let ghost all = crate::models::views(list@);
    let mut i: usize = 0;
    assert(all.skip(0) =~= all);
    while i < list.len()
        invariant
            i <= list.len(),
            all == crate::models::views(list@),
            position_of(all, d@.id) == (match position_of(all.skip(i as int), d@.id) {
                Some(k) => Some(k + i),
                None => None,
            }),
        decreases list.len() - i,
    {
        assert(all.skip(i as int)[0] == list@[i as int]@);
        assert(all.skip(i as int).drop_first() =~= all.skip(i + 1));
        if same(list[i].id.as_str(), d.id.as_str()) {
            return list[i].clone();
        }
        i = i + 1;
    }
    d.clone()
}

// ---- one device in a round ----

/// A device that a round looks at.
#[derive(Debug)]
pub struct Visit {
    /// The device as the round found it.
    pub device: Device,
    /// The device as it is tried: with another address once it was rediscovered.
    pub target: Device,
    /// Whether it is tried for the second time.
    pub second: bool,
}

/// The contents of a [`Visit`].
pub struct VisitV {
    pub device: DeviceV,
    pub target: DeviceV,
    pub second: bool,
}

impl View for Visit {
    type V = VisitV;

    open spec fn view(&self) -> VisitV {
        VisitV { device: self.device@, target: self.target@, second: self.second }
    }
}

/// What to do next with a device.
#[derive(Debug, Clone, Copy, PartialEq, Eq, Structural)]
pub enum VisitStep {
    /// Nothing more in this round.
    Over,
    /// See whether the target answers.
    Probe,
    /// Open a discovery window of some seconds, wait some milliseconds, and list the devices
    /// anew.
    Rediscover(u64, u64),
    /// Synchronise with the device.
    Sync,
}

/// What to do after the target was tried, and the state of the loop.
pub open spec fn visit_next(v: VisitV, s: AutoSyncV, answered: bool, force: bool, tick: i64) -> (
    VisitStep,
    AutoSyncV,
) {
    if answered {
        (VisitStep::Sync, s)
    } else if v.second || !may_rediscover(s, force, tick) {
        (VisitStep::Over, s)
    } else {
        (
            VisitStep::Rediscover(REDISCOVER_WINDOW_SECS, REDISCOVER_WAIT_MS),
            AutoSyncV { last_rediscover: Some(tick), ..s },
        )
    }
}

impl AutoSync {
    /// Begins to look at a device.
    pub fn visit(&mut self, d: &Device, force: bool, tick: i64) -> (r: (Visit, VisitStep, Notice))
        ensures
            r.0@ == (VisitV { device: d@, target: d@, second: false }),
            r.1 == (match device_next(old(self)@, d@, force, tick).0 {
                DeviceStep::Skip => VisitStep::Over,
                DeviceStep::Probe => VisitStep::Probe,
            }),
            r.2 == device_next(old(self)@, d@, force, tick).1,
            final(self)@ == device_next(old(self)@, d@, force, tick).2,
    {
        let (step, notice): (DeviceStep, Notice) = self.consider(d, force, tick);
        let visit: Visit = Visit { device: d.clone(), target: d.clone(), second: false };
        let next: VisitStep = match step {
            DeviceStep::Skip => VisitStep::Over,
            DeviceStep::Probe => VisitStep::Probe,
        };
        (visit, next, notice)
    }
}

impl Visit {
    /// Goes on once the target was tried.
    pub fn probed(&self, auto: &mut AutoSync, answered: bool, force: bool, tick: i64) -> (r:
        VisitStep)
        ensures
            (r, final(auto)@) == visit_next(self@, old(auto)@, answered, force, tick),
    {
        if answered {
            return VisitStep::Sync;
        }
        if self.second {
            return VisitStep::Over;
        }
        match auto.unanswered(force, tick) {
            FailureStep::GiveUp => VisitStep::Over,
            FailureStep::Rediscover(window, wait) => VisitStep::Rediscover(window, wait),
        }
    }

    /// Goes on once the devices were listed anew: the target is tried for the second time.
    pub fn reread(&mut self, devices: &Vec<Device>) -> (r: VisitStep)
        ensures
            r == VisitStep::Probe,
            final(self)@ == (VisitV {
                device: old(self)@.device,
                target: refreshed(crate::models::views(devices@), old(self)@.device),
                second: true,
            }),
    {
        self.target = refresh(devices, &self.device);
        self.second = true;
        VisitStep::Probe
    }
}

/// How long to sleep next, in seconds, of an interval of which a part is over.
pub open spec fn next_sleep(waited: u64, interval: u64) -> int {
    if waited >= interval {
        0
    } else if interval - waited < 5 {
        interval - waited
    } else {
        5
    }
}

/// How long to sleep next, in seconds, of an interval of which a part is over: five seconds at
/// most, so that a new interval counts within that time; zero when it is over.
pub fn sleep_step(waited: u64, interval: u64) -> (r: u64)
    ensures
        r == next_sleep(waited, interval),
{
    if waited >= interval {
        0
    } else if interval - waited < 5 {
        interval - waited
    } else {
        5
    }
}

// ---- laws ----

/// A paired device that is online is tried in every round.
pub proof fn law_online_device_is_tried(s: AutoSyncV, d: DeviceV, force: bool, tick: i64)
    requires
        d.paired,
        !d.is_self,
        d.is_online,
    ensures
        device_next(s, d, force, tick).0 == DeviceStep::Probe,
        device_next(s, d, force, tick).1 == Notice::CameBack <==> !was_online(s, d.id),
{
}

/// A paired device that is offline is tried again after the retry time at the latest, and not
/// before it unless every device is tried.
pub proof fn law_offline_device_is_retried(s: AutoSyncV, d: DeviceV, tick: i64, later: i64)
    requires
        d.paired,
        !d.is_self,
        !d.is_online,
        device_next(s, d, false, tick).0 == DeviceStep::Probe,
    ensures
        ({
            let after = device_next(s, d, false, tick).2;
            &&& later - tick >= OFFLINE_RETRY_MS ==> device_next(after, d, false, later).0
                == DeviceStep::Probe
            &&& later - tick < OFFLINE_RETRY_MS ==> device_next(after, d, false, later).0
                == DeviceStep::Skip
            &&& device_next(after, d, true, later).0 == DeviceStep::Probe
        }),
{
}

/// A device that is not paired, and the own one, are never tried.
pub proof fn law_unpaired_device_is_left_alone(s: AutoSyncV, d: DeviceV, force: bool, tick: i64)
    requires
        !d.paired || d.is_self,
    ensures
        device_next(s, d, force, tick) == (DeviceStep::Skip, Notice::Unchanged, s),
{
}

/// Switching synchronisation on tries every paired device in the next round, and only then.
pub proof fn law_first_round_is_forced(s: AutoSyncV, cfg: SyncConfigV)
    ensures
        round_of(s, Some(cfg)).force <==> cfg.enabled && cfg.sync_interval > 0 && !s.prev_enabled,
        round_of(AutoSyncV { prev_enabled: round_of(s, Some(cfg)).enabled, ..s }, Some(cfg)).force
            == false,
{
}

/// An interval of zero leaves synchronisation to the user: once it is stored, no round looks at
/// devices.
pub proof fn law_interval_zero_is_manual(
    s: AutoSyncV,
    rows: Seq<ConfigRowV>,
    cfg: SyncConfigV,
)
    requires
        cfg.sync_interval == 0,
    ensures
        !round_of(s, Some(config_of(with_config(rows, cfg)))).enabled,
        !round_of(s, Some(config_of(with_config(rows, cfg)))).force,
{
    law_config_reads_back(rows, cfg);
}

/// A device that came back is tried at once, whenever that is, and does not count as having come
/// back again.
pub proof fn law_return_is_noted_once(
    s: AutoSyncV,
    cfg: Option<SyncConfigV>,
    d: DeviceV,
    force: bool,
    tick: i64,
)
    requires
        has_come_back(s, cfg, d),
    ensures
        device_next(s, d, force, tick).0 == DeviceStep::Probe,
        device_next(s, d, force, tick).1 == Notice::CameBack,
        !has_come_back(device_next(s, d, force, tick).2, cfg, d),
{
}

/// A device is synchronised with only after it answered, and one that does not answer is tried
/// twice at most in a round.
pub proof fn law_visit_ends(v: VisitV, s: AutoSyncV, force: bool, tick: i64)
    ensures
        visit_next(v, s, true, force, tick).0 == VisitStep::Sync,
        visit_next(v, s, false, force, tick).0 != VisitStep::Sync,
        v.second ==> visit_next(v, s, false, force, tick).0 == VisitStep::Over,
        !v.second && force ==> visit_next(v, s, false, force, tick).0 is Rediscover,
{
}

/// Rounds look at devices exactly where synchronisation is on and the interval is not zero. They
/// are as far apart as the interval says, but five seconds at least, and ten without settings.
pub proof fn law_rounds_follow_settings(s: AutoSyncV, cfg: SyncConfigV)
    ensures
        round_of(s, Some(cfg)).enabled <==> cfg.enabled && cfg.sync_interval > 0,
        cfg.sync_interval >= 5 ==> round_of(s, Some(cfg)).interval_secs == cfg.sync_interval
            && wait_between(Some(cfg)) == cfg.sync_interval,
        cfg.sync_interval < 5 ==> round_of(s, Some(cfg)).interval_secs == 5 && wait_between(
            Some(cfg),
        ) == 5,
        !round_of(s, None).enabled,
        !round_of(s, None).force,
        round_of(s, None).interval_secs == 10,
        wait_between(None) == 10,
{
}

/// Once settings are stored that switch synchronisation on with an interval, rounds look at
/// devices, and the first one tries every paired device.
pub proof fn law_stored_interval_counts(
    s: AutoSyncV,
    rows: Seq<ConfigRowV>,
    cfg: SyncConfigV,
)
    ensures
        ({
            let r = round_of(s, Some(config_of(with_config(rows, cfg))));
            &&& r.enabled <==> cfg.enabled && cfg.sync_interval > 0
            &&& r.force <==> cfg.enabled && cfg.sync_interval > 0 && !s.prev_enabled
            &&& cfg.sync_interval >= 5 ==> r.interval_secs == cfg.sync_interval
            &&& cfg.sync_interval < 5 ==> r.interval_secs == 5
        }),
{
    law_config_reads_back(rows, cfg);
}

/// A look at a paired device tells whether it came back, went or stayed since the last look, and
/// from then on its state is the one that was seen; what is known of other devices stays.
pub proof fn law_look_is_noted(s: AutoSyncV, d: DeviceV, force: bool, tick: i64, other: Seq<char>)
    requires
        d.paired,
        !d.is_self,
    ensures
        ({
            let (step, notice, after) = device_next(s, d, force, tick);
            &&& notice == Notice::CameBack <==> d.is_online && !was_online(s, d.id)
            &&& notice == Notice::WentOffline <==> !d.is_online && was_online(s, d.id)
            &&& was_online(after, d.id) <==> d.is_online
            &&& other != d.id ==> was_online(after, other) == was_online(s, other)
            &&& other != d.id ==> probe_due(after, other, tick) == probe_due(s, other, tick)
            &&& after.prev_enabled == s.prev_enabled
            &&& after.last_rediscover == s.last_rediscover
            &&& d.is_online ==> probe_due(after, d.id, tick)
        }),
{
}

/// A device that is offline and was never tried is tried at once; one that was tried is tried
/// again after half a minute.
pub proof fn law_offline_device_is_tried_at_once(s: AutoSyncV, d: DeviceV, tick: i64)
    requires
        d.paired,
        !d.is_self,
        !d.is_online,
    ensures
        !s.offline_probe_at.contains_key(d.id) ==> device_next(s, d, false, tick).0
            == DeviceStep::Probe,
        s.offline_probe_at.contains_key(d.id) ==> (device_next(s, d, false, tick).0
            == DeviceStep::Probe <==> tick - s.offline_probe_at[d.id] >= 30_000),
        device_next(s, d, true, tick).0 == DeviceStep::Probe,
{
}

/// A device has come back where rounds are on, it is paired, not the own one and online, and was
/// not online when it was last looked at.
pub proof fn law_coming_back(s: AutoSyncV, cfg: SyncConfigV, d: DeviceV)
    ensures
        has_come_back(s, Some(cfg), d) <==> cfg.enabled && cfg.sync_interval > 0 && d.paired
            && !d.is_self && d.is_online && !(s.prev_online.contains_key(d.id)
            && s.prev_online[d.id]),
        !has_come_back(s, None, d),
{
}

/// A discovery window is opened for a device that does not answer; within half a minute no other
/// one is opened unless every device is tried, and after that one is.
pub proof fn law_windows_are_apart(v: VisitV, w: VisitV, s: AutoSyncV, tick: i64, later: i64)
    requires
        !v.second,
        !w.second,
        visit_next(v, s, false, false, tick).0 is Rediscover,
    ensures
        visit_next(v, s, false, false, tick).0 == VisitStep::Rediscover(6, 3_000),
        ({
            let after = visit_next(v, s, false, false, tick).1;
            &&& visit_next(w, after, false, false, later).0 is Rediscover <==> later - tick >= 30_000
            &&& later - tick < 30_000 ==> visit_next(w, after, false, false, later).0
                == VisitStep::Over
            &&& visit_next(w, after, false, true, later).0 is Rediscover
            &&& after == (AutoSyncV { last_rediscover: Some(tick), ..s })
        }),
        s.last_rediscover is None ==> visit_next(w, s, false, false, later).0 is Rediscover,
        visit_next(v, s, true, false, tick).1 == s,
{
}

/// A device that is listed is taken as it is listed, and one that is not as it was.
pub proof fn law_refreshed_device_is_listed(list: Seq<DeviceV>, d: DeviceV)
    ensures
        refreshed(list, d).id == d.id,
        (exists|i: int| 0 <= i < list.len() && (#[trigger] list[i]).id == d.id) ==> list.contains(
            refreshed(list, d),
        ),
        (forall|i: int| 0 <= i < list.len() ==> (#[trigger] list[i]).id != d.id) ==> refreshed(
            list,
            d,
        ) == d,
{
    lemma_position(list, d.id);
}

proof fn lemma_position(list: Seq<DeviceV>, id: Seq<char>)
    ensures
        match position_of(list, id) {
            Some(i) => 0 <= i < list.len() && list[i].id == id,
            None => forall|i: int| 0 <= i < list.len() ==> (#[trigger] list[i]).id != id,
        },
    decreases list.len(),
{
    if list.len() > 0 {
        let rest = list.drop_first();
        lemma_position(rest, id);
        if list[0].id != id && position_of(rest, id) is None {
            assert forall|i: int| 0 <= i < list.len() implies (#[trigger] list[i]).id != id by {
                if i > 0 {
                    assert(rest[i - 1].id != id);
                }
            }
        }
    }
}

/// A device that is tried while it is offline is noted with the time; one that is passed over
/// keeps the time when it was last tried.
pub proof fn law_tries_are_timed(s: AutoSyncV, d: DeviceV, force: bool, tick: i64)
    requires
        d.paired,
        !d.is_self,
        !d.is_online,
    ensures
        ({
            let (step, notice, after) = device_next(s, d, force, tick);
            &&& step == DeviceStep::Probe ==> after.offline_probe_at == s.offline_probe_at.insert(
                d.id,
                tick,
            )
            &&& step == DeviceStep::Skip ==> after.offline_probe_at == s.offline_probe_at
        }),
{
}

/// The loop sleeps up to the end of the interval and no longer, for five seconds at most, and does
/// not sleep exactly where the interval is over.
pub proof fn law_sleep_fits_the_interval(waited: u64, interval: u64)
    ensures
        0 <= next_sleep(waited, interval) <= 5,
        next_sleep(waited, interval) == 0 <==> waited >= interval,
        waited < interval ==> waited + next_sleep(waited, interval) <= interval,
        waited + 5 <= interval ==> next_sleep(waited, interval) == 5,
        waited < interval && interval <= waited + 5 ==> waited + next_sleep(waited, interval)
            == interval,
{
}

} // verus!
