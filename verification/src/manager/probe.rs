//! Decisions of the loop that sees which devices answer.

use vstd::prelude::*;

use crate::manager::auto::opt_config;
use crate::models::{lemma_views_push, views, Device, DeviceV, SyncConfig, SyncConfigV};
use crate::storage::order::{lemma_filter_ends, lemma_filter_keeps, lemma_filter_member, lemma_filter_step};

verus! {

/// Whether a round looks at devices: synchronisation is on. Without settings it is off.
pub open spec fn probing(cfg: Option<SyncConfigV>) -> bool {
    match cfg {
        Some(c) => c.enabled,
        None => false,
    }
}

/// How long to wait after a round, in seconds.
pub open spec fn probe_wait_of(probed: bool, cfg: Option<SyncConfigV>) -> u64 {
    if !probed {
        5
    } else {
        match cfg {
            Some(c) => if c.probe_interval < 2 {
                2
            } else {
                c.probe_interval as u64
            },
            None => 10,
        }
    }
}

/// Whether a round looks at devices.
pub fn probe_enabled(cfg: &Option<SyncConfig>) -> (r: bool)
    ensures
        r == probing(opt_config(*cfg)),
{
    match cfg {
        Some(c) => c.enabled,
        None => false,
    }
}

/// How long to wait after a round, in seconds. `cfg` holds the settings as they are then.
pub fn probe_wait(probed: bool, cfg: &Option<SyncConfig>) -> (r: u64)
    ensures
        r == probe_wait_of(probed, opt_config(*cfg)),
{
    if !probed {
        return 5;
    }
    match cfg {
        Some(c) => if c.probe_interval < 2 {
            2
        } else {
            c.probe_interval as u64
        },
        None => 10,
    }
}

/// The test for devices other than this one.
pub open spec fn remote() -> spec_fn(DeviceV) -> bool {
    |d: DeviceV| !d.is_self
}

/// The devices that a round looks at: all but this one, paired or not.
pub fn probe_targets(devices: Vec<Device>) -> (r: Vec<Device>)
    ensures
        views(r@) == views(devices@).filter(remote()),
{
    let ghost all = devices@;
    let ghost list = views(devices@);
    let ghost p = remote();
    let mut out: Vec<Device> = Vec::new();
    proof {
        lemma_filter_ends(list, p);
        assert(views(out@) =~= list.take(0).filter(p));
    }
    for d in it: devices
        invariant
            it.seq() == all,
            list == views(all),
            p == remote(),
            views(out@) == list.take(it.index()).filter(p),
    {
        let ghost i = it.index();
        assert(d@ == list[i]);
        proof {
            lemma_filter_step(list, i, p);
        }
        if !d.is_self {
            proof {
                lemma_views_push(out@, d);
            }
            out.push(d);
        }
    }
    assert(list.take(list.len() as int) =~= list);
    out
}

// ---- laws ----

/// A round looks at devices exactly where the settings have synchronisation on, also once they
/// are stored and read back.
pub proof fn law_probing_follows_settings(
    cfg: SyncConfigV,
    rows: Seq<crate::storage::ConfigRowV>,
)
    ensures
        probing(Some(cfg)) <==> cfg.enabled,
        !probing(None),
        probing(
            Some(
                crate::storage::config::config_of(crate::storage::config::with_config(rows, cfg)),
            ),
        ) <==> cfg.enabled,
{
    crate::storage::config::law_config_reads_back(rows, cfg);
}

/// After a round that looked at devices the loop waits for the interval of the settings, but two
/// seconds at least; after one that did not it waits for five.
pub proof fn law_probe_waits(cfg: SyncConfigV)
    ensures
        cfg.probe_interval >= 2 ==> probe_wait_of(true, Some(cfg)) == cfg.probe_interval,
        cfg.probe_interval < 2 ==> probe_wait_of(true, Some(cfg)) == 2,
        probe_wait_of(true, None) == 10,
        probe_wait_of(false, Some(cfg)) == 5,
        probe_wait_of(false, None) == 5,
{
}

/// Every device but the own one is looked at, paired or not, and nothing else.
pub proof fn law_all_others_are_probed(devices: Seq<DeviceV>, d: DeviceV)
    ensures
        devices.filter(remote()).contains(d) <==> devices.contains(d) && !d.is_self,
{
    let p = remote();
    if devices.contains(d) && p(d) {
        lemma_filter_keeps(devices, p, d);
    }
    if devices.filter(p).contains(d) {
        let k = choose|k: int| 0 <= k < devices.filter(p).len() && devices.filter(p)[k] == d;
        lemma_filter_member(devices, p, k);
    }
}

} // verus!
