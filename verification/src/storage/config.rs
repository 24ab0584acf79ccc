//! The settings table.

use vstd::prelude::*;

use crate::models::{default_config, lemma_views_push, views, SyncConfig, SyncConfigV, DEFAULT_HTTP_PORT, DEFAULT_UDP_PORT};
use crate::storage::order::{distinct_by, lemma_filter_ends, lemma_filter_keeps_keys, lemma_filter_member, lemma_filter_step, lemma_push_keeps_keys};
use crate::storage::{ConfigRow, ConfigRowV, SyncDb, SyncDbV};
use crate::text::{decimal, decimal_of, law_decimal_reads_back, opt_text, parse_integer, parsed_integer, same};

verus! {

// ---- rows ----

/// The stored text of a setting.
pub open spec fn setting(rows: Seq<ConfigRowV>, key: Seq<char>) -> Option<Seq<char>>
    decreases rows.len(),
{
    if rows.len() == 0 {
        None
    } else if rows[0].key == key {
        Some(rows[0].value)
    } else {
        setting(rows.drop_first(), key)
    }
}

/// The settings after one is set.
pub open spec fn with_setting(rows: Seq<ConfigRowV>, key: Seq<char>, value: Seq<char>) -> Seq<
    ConfigRowV,
> {
    if setting(rows, key) is Some {
        Seq::new(
            rows.len(),
            |i: int|
                if rows[i].key == key {
                    ConfigRowV { key, value }
                } else {
                    rows[i]
                },
        )
    } else {
        rows.push(ConfigRowV { key, value })
    }
}

/// The test for settings other than one.
pub open spec fn other_key(key: Seq<char>) -> spec_fn(ConfigRowV) -> bool {
    |r: ConfigRowV| r.key != key
}

impl SyncDb {
    fn get_setting(&self, key: &str) -> (r: Option<String>)
        ensures
            opt_text(r) == setting(self@.config, key@),
    {
        let ghost rows = self@.config;
        let mut i: usize = 0;
        assert(rows.skip(0) =~= rows);
        while i < self.config.len()
            invariant
                i <= self.config.len(),
                rows == views(self.config@),
                setting(rows, key@) == setting(rows.skip(i as int), key@),
            decreases self.config.len() - i,
        {
            assert(rows.skip(i as int)[0] == self.config@[i as int]@);
            assert(rows.skip(i as int).drop_first() =~= rows.skip(i + 1));
            if same(self.config[i].key.as_str(), key) {
                return Some(self.config[i].value.clone());
            }
            i = i + 1;
        }
        None
    }

    fn set_setting(&mut self, key: &str, value: String)
        ensures
            final(self)@ == (SyncDbV {
                config: with_setting(old(self)@.config, key@, value@),
                ..old(self)@
            }),
    {
        let known: bool = self.get_setting(key).is_some();
        if known {
            let ghost before = self@.config;
            let ghost target = with_setting(before, key@, value@);
            let mut rows: Vec<ConfigRow> = Vec::new();
            let mut out: Vec<ConfigRow> = Vec::new();
            std::mem::swap(&mut rows, &mut self.config);
            let ghost list = rows@;
            for row in it: rows
                invariant
                    it.seq() == list,
                    before == views(list),
                    setting(before, key@) is Some,
                    target == with_setting(before, key@, value@),
                    views(out@) == target.take(it.index()),
            {
                let ghost i = it.index();
                assert(row@ == before[i]);
                let next: ConfigRow = if same(row.key.as_str(), key) {
                    ConfigRow { key: row.key, value: value.clone() }
                } else {
                    row
                };
                proof {
                    lemma_views_push(out@, next);
                    assert(next@ == target[i]);
                    assert(target.take(i + 1) =~= target.take(i).push(next@));
                }
                out.push(next);
            }
            assert(target.take(before.len() as int) =~= target);
            self.config = out;
        } else {
            let row: ConfigRow = ConfigRow { key: key.to_string(), value };
            proof {
                lemma_views_push(self.config@, row);
            }
            self.config.push(row);
        }
    }
}

// ---- values ----

/// The text of a truth value.
pub open spec fn flag_text(b: bool) -> Seq<char> {
    if b {
        "true"@
    } else {
        "false"@
    }
}

fn flag_of(b: bool) -> (r: String)
    ensures
        r@ == flag_text(b),
{
    if b {
        "true".to_string()
    } else {
        "false".to_string()
    }
}

/// A stored truth value; `default` where nothing is stored.
pub open spec fn flag_setting(v: Option<Seq<char>>, default: bool) -> bool {
    match v {
        Some(s) => s == "true"@,
        None => default,
    }
}

fn read_flag(v: Option<String>, default: bool) -> (r: bool)
    ensures
        r == flag_setting(opt_text(v), default),
{
    match v {
        Some(s) => same(s.as_str(), "true"),
        None => default,
    }
}

/// A stored text; `default` where nothing is stored.
pub open spec fn text_setting(v: Option<Seq<char>>, default: Seq<char>) -> Seq<char> {
    match v {
        Some(s) => s,
        None => default,
    }
}

fn read_text(v: Option<String>, default: String) -> (r: String)
    ensures
        r@ == text_setting(opt_text(v), default@),
{
    match v {
        Some(s) => s,
        None => default,
    }
}

/// A stored number of 16 bits; zero where the text is none.
pub open spec fn number16(s: Seq<char>) -> int {
    match parsed_integer(s, false, 0, 65535) {
        Some(n) => n,
        None => 0,
    }
}

fn read_number16(s: &str) -> (r: u16)
    ensures
        r == number16(s@),
{
    match parse_integer(s, false, 0, 65535) {
        Some(n) => n as u16,
        None => 0,
    }
}

/// A stored port; `default` where nothing is stored or the port is zero.
pub open spec fn port_setting(v: Option<Seq<char>>, default: u16) -> u16 {
    match v {
        Some(s) => if number16(s) == 0 {
            default
        } else {
            number16(s) as u16
        },
        None => default,
    }
}

fn read_port(v: Option<String>, default: u16) -> (r: u16)
    ensures
        r == port_setting(opt_text(v), default),
{
    match v {
        Some(s) => {
            let p: u16 = read_number16(s.as_str());
            if p == 0 {
                default
            } else {
                p
            }
        },
        None => default,
    }
}

/// The stored probe interval; `default` where nothing is stored.
pub open spec fn probe_setting(v: Option<Seq<char>>, default: u16) -> u16 {
    match v {
        Some(s) => number16(s) as u16,
        None => default,
    }
}

/// The stored synchronisation interval: zero, or at least five seconds; ten where the text is
/// no number, `default` where nothing is stored.
pub open spec fn interval_setting(v: Option<Seq<char>>, default: u64) -> u64 {
    match v {
        Some(s) => {
            let n = match parsed_integer(s, false, 0, u64::MAX as int) {
                Some(n) => n,
                None => 10,
            };
            usable_interval(n as u64)
        },
        None => default,
    }
}

fn read_interval(v: Option<String>, default: u64) -> (r: u64)
    ensures
        r == interval_setting(opt_text(v), default),
{
    match v {
        Some(s) => {
            let n: u64 = match parse_integer(s.as_str(), false, 0, u64::MAX as i128) {
                Some(n) => n as u64,
                None => 10,
            };
            to_usable_interval(n)
        },
        None => default,
    }
}

/// The stored interval of the cloud store; 300 seconds where the text is no number, `default`
/// where nothing is stored.
pub open spec fn d1_interval_setting(v: Option<Seq<char>>, default: i64) -> i64 {
    match v {
        Some(s) => match parsed_integer(s, true, i64::MIN as int, i64::MAX as int) {
            Some(n) => n as i64,
            None => 300,
        },
        None => default,
    }
}

fn read_d1_interval(v: Option<String>, default: i64) -> (r: i64)
    ensures
        r == d1_interval_setting(opt_text(v), default),
{
    match v {
        Some(s) => match parse_integer(s.as_str(), true, i64::MIN as i128, i64::MAX as i128) {
            Some(n) => n as i64,
            None => 300,
        },
        None => default,
    }
}

// ---- all settings ----

/// A setting with the type that its key calls for.
#[derive(Debug)]
pub enum ConfigValue {
    Flag(bool),
    Number(u64),
    Text(String),
}

/// The contents of a [`ConfigValue`].
pub enum ConfigValueV {
    Flag(bool),
    Number(u64),
    Text(Seq<char>),
}

impl View for ConfigValue {
    type V = ConfigValueV;

    open spec fn view(&self) -> ConfigValueV {
        match self {
            ConfigValue::Flag(b) => ConfigValueV::Flag(*b),
            ConfigValue::Number(n) => ConfigValueV::Number(*n),
            ConfigValue::Text(s) => ConfigValueV::Text(s@),
        }
    }
}

/// The typed value of a setting.
pub open spec fn typed(key: Seq<char>, value: Seq<char>) -> ConfigValueV {
    if key == "enabled"@ || key == "http_enabled"@ || key == "sync_inbox"@ || key
        == "sync_activity"@ || key == "d1_enabled"@ {
        ConfigValueV::Flag(value == "true"@)
    } else if key == "listen_port"@ || key == "udp_port"@ || key == "probe_interval"@ {
        ConfigValueV::Number(number16(value) as u64)
    } else if key == "sync_interval"@ {
        ConfigValueV::Number(
            match parsed_integer(value, false, 0, u64::MAX as int) {
                Some(n) => n as u64,
                None => 10,
            },
        )
    } else {
        ConfigValueV::Text(value)
    }
}

/// The contents of typed settings.
pub open spec fn settings_view(list: Seq<(String, ConfigValue)>) -> Seq<(Seq<char>, ConfigValueV)> {
    Seq::new(list.len(), |i: int| (list[i].0@, list[i].1@))
}

/// All settings with their typed values.
pub open spec fn all_settings(rows: Seq<ConfigRowV>) -> Seq<(Seq<char>, ConfigValueV)> {
    Seq::new(rows.len(), |i: int| (rows[i].key, typed(rows[i].key, rows[i].value)))
}

fn typed_value(key: &str, value: &String) -> (r: ConfigValue)
    ensures
        r@ == typed(key@, value@),
{
    if same(key, "enabled") || same(key, "http_enabled") || same(key, "sync_inbox") || same(
        key,
        "sync_activity",
    ) || same(key, "d1_enabled") {
        ConfigValue::Flag(same(value.as_str(), "true"))
    } else if same(key, "listen_port") || same(key, "udp_port") || same(key, "probe_interval") {
        ConfigValue::Number(read_number16(value.as_str()) as u64)
    } else if same(key, "sync_interval") {
        ConfigValue::Number(
            match parse_integer(value.as_str(), false, 0, u64::MAX as i128) {
                Some(n) => n as u64,
                None => 10,
            },
        )
    } else {
        ConfigValue::Text(value.clone())
    }
}

/// The settings that the table holds; defaults stand in for what it lacks.
pub open spec fn config_of(rows: Seq<ConfigRowV>) -> SyncConfigV {
    let d = default_config();
    SyncConfigV {
        enabled: flag_setting(setting(rows, "enabled"@), d.enabled),
        http_enabled: flag_setting(setting(rows, "http_enabled"@), d.http_enabled),
        discovery_method: text_setting(setting(rows, "discovery_method"@), d.discovery_method),
        listen_port: port_setting(setting(rows, "listen_port"@), DEFAULT_HTTP_PORT),
        udp_port: port_setting(setting(rows, "udp_port"@), DEFAULT_UDP_PORT),
        sync_inbox: flag_setting(setting(rows, "sync_inbox"@), d.sync_inbox),
        sync_activity: flag_setting(setting(rows, "sync_activity"@), d.sync_activity),
        self_alias: text_setting(setting(rows, "self_alias"@), d.self_alias),
        probe_interval: probe_setting(setting(rows, "probe_interval"@), d.probe_interval),
        sync_interval: interval_setting(setting(rows, "sync_interval"@), d.sync_interval),
        d1_enabled: flag_setting(setting(rows, "d1_enabled"@), d.d1_enabled),
        d1_account_id: text_setting(setting(rows, "d1_account_id"@), d.d1_account_id),
        d1_database_id: text_setting(setting(rows, "d1_database_id"@), d.d1_database_id),
        d1_api_token: text_setting(setting(rows, "d1_api_token"@), d.d1_api_token),
        d1_sync_interval: d1_interval_setting(setting(rows, "d1_sync_interval"@), d.d1_sync_interval),
        sync_todo: d.sync_todo,
    }
}

/// The settings table after settings are stored.
pub open spec fn with_config(rows: Seq<ConfigRowV>, cfg: SyncConfigV) -> Seq<ConfigRowV> {
    let r0 = with_setting(rows, "enabled"@, flag_text(cfg.enabled));
    let r1 = with_setting(r0, "http_enabled"@, flag_text(cfg.http_enabled));
    let r2 = with_setting(r1, "discovery_method"@, cfg.discovery_method);
    let r3 = with_setting(r2, "listen_port"@, decimal(cfg.listen_port as int));
    let r4 = with_setting(r3, "udp_port"@, decimal(cfg.udp_port as int));
    let r5 = with_setting(r4, "sync_inbox"@, flag_text(cfg.sync_inbox));
    let r6 = with_setting(r5, "sync_activity"@, flag_text(cfg.sync_activity));
    let r7 = with_setting(r6, "self_alias"@, cfg.self_alias);
    let r8 = with_setting(r7, "probe_interval"@, decimal(cfg.probe_interval as int));
    let r9 = with_setting(r8, "sync_interval"@, decimal(usable_interval(cfg.sync_interval) as int));
    let r10 = with_setting(r9, "d1_enabled"@, flag_text(cfg.d1_enabled));
    let r11 = with_setting(r10, "d1_account_id"@, cfg.d1_account_id);
    let r12 = with_setting(r11, "d1_database_id"@, cfg.d1_database_id);
    let r13 = with_setting(r12, "d1_api_token"@, cfg.d1_api_token);
    let r14 = with_setting(r13, "d1_sync_interval"@, decimal(cfg.d1_sync_interval as int));
    r14
}

/// A synchronisation interval that is used: zero, which leaves synchronisation to the user, or
/// at least five seconds.
pub open spec fn usable_interval(n: u64) -> u64 {
    if 0 < n < 5 {
        5
    } else {
        n
    }
}

fn to_usable_interval(n: u64) -> (r: u64)
    ensures
        r == usable_interval(n),
{
    if 0 < n && n < 5 {
        5
    } else {
        n
    }
}

impl SyncDb {
    /// All settings with their typed values.
    pub fn get_all_config(&self) -> (r: Vec<(String, ConfigValue)>)
        ensures
            settings_view(r@) == all_settings(self@.config),
    {
        let ghost rows = self@.config;
        let mut out: Vec<(String, ConfigValue)> = Vec::new();
        let mut i: usize = 0;
        while i < self.config.len()
            invariant
                i <= self.config.len(),
                rows == views(self.config@),
                settings_view(out@) == all_settings(rows).take(i as int),
            decreases self.config.len() - i,
        {
            let row: &ConfigRow = &self.config[i];
            assert(rows[i as int] == row@);
            let ghost before = out@;
            let v: ConfigValue = typed_value(row.key.as_str(), &row.value);
            out.push((row.key.clone(), v));
            proof {
                assert(settings_view(out@) =~= settings_view(before).push(
                    all_settings(rows)[i as int],
                ));
                assert(all_settings(rows).take(i + 1) =~= all_settings(rows).take(i as int).push(
                    all_settings(rows)[i as int],
                ));
            }
            i = i + 1;
        }
        assert(all_settings(rows).take(i as int) =~= all_settings(rows));
        out
    }

    /// The settings.
    pub fn get_config(&self) -> (r: SyncConfig)
        ensures
            r@ == config_of(self@.config),
    {
        let d: SyncConfig = SyncConfig::default();
        SyncConfig {
            enabled: read_flag(self.get_setting("enabled"), d.enabled),
            http_enabled: read_flag(self.get_setting("http_enabled"), d.http_enabled),
            discovery_method: read_text(self.get_setting("discovery_method"), d.discovery_method),
            listen_port: read_port(self.get_setting("listen_port"), DEFAULT_HTTP_PORT),
            udp_port: read_port(self.get_setting("udp_port"), DEFAULT_UDP_PORT),
            sync_inbox: read_flag(self.get_setting("sync_inbox"), d.sync_inbox),
            sync_activity: read_flag(self.get_setting("sync_activity"), d.sync_activity),
            self_alias: read_text(self.get_setting("self_alias"), d.self_alias),
            probe_interval: match self.get_setting("probe_interval") {
                Some(s) => read_number16(s.as_str()),
                None => d.probe_interval,
            },
            sync_interval: read_interval(self.get_setting("sync_interval"), d.sync_interval),
            d1_enabled: read_flag(self.get_setting("d1_enabled"), d.d1_enabled),
            d1_account_id: read_text(self.get_setting("d1_account_id"), d.d1_account_id),
            d1_database_id: read_text(self.get_setting("d1_database_id"), d.d1_database_id),
            d1_api_token: read_text(self.get_setting("d1_api_token"), d.d1_api_token),
            d1_sync_interval: read_d1_interval(self.get_setting("d1_sync_interval"), d.d1_sync_interval),
            sync_todo: d.sync_todo,
        }
    }

    /// Stores the settings. The synchronisation interval is zero or at least five seconds.
    pub fn set_config(&mut self, cfg: &SyncConfig)
        ensures
            final(self)@ == (SyncDbV {
                config: with_config(old(self)@.config, cfg@),
                ..old(self)@
            }),
    {
        let interval: u64 = to_usable_interval(cfg.sync_interval);
        self.set_setting("enabled", flag_of(cfg.enabled));
        self.set_setting("http_enabled", flag_of(cfg.http_enabled));
        self.set_setting("discovery_method", cfg.discovery_method.clone());
        self.set_setting("listen_port", decimal_of(cfg.listen_port as i128));
        self.set_setting("udp_port", decimal_of(cfg.udp_port as i128));
        self.set_setting("sync_inbox", flag_of(cfg.sync_inbox));
        self.set_setting("sync_activity", flag_of(cfg.sync_activity));
        self.set_setting("self_alias", cfg.self_alias.clone());
        self.set_setting("probe_interval", decimal_of(cfg.probe_interval as i128));
        self.set_setting("sync_interval", decimal_of(interval as i128));
        self.set_setting("d1_enabled", flag_of(cfg.d1_enabled));
        self.set_setting("d1_account_id", cfg.d1_account_id.clone());
        self.set_setting("d1_database_id", cfg.d1_database_id.clone());
        self.set_setting("d1_api_token", cfg.d1_api_token.clone());
        self.set_setting("d1_sync_interval", decimal_of(cfg.d1_sync_interval as i128));
    }

    /// When the cloud store was last synchronised with, as a stored text.
    pub fn get_d1_last_sync(&self) -> (r: Option<String>)
        ensures
            opt_text(r) == setting(self@.config, "d1_last_sync"@),
    {
        self.get_setting("d1_last_sync")
    }

    /// Notes when the cloud store was last synchronised with.
    pub fn set_d1_last_sync(&mut self, ts: &str)
        ensures
            final(self)@ == (SyncDbV {
                config: with_last_sync(old(self)@.config, ts@),
                ..old(self)@
            }),
    {
        let ghost before = self@.config;
        let ghost p = other_key("d1_last_sync"@);
        let mut rows: Vec<ConfigRow> = Vec::new();
        let mut out: Vec<ConfigRow> = Vec::new();
        std::mem::swap(&mut rows, &mut self.config);
        let ghost list = rows@;
        proof {
            lemma_filter_ends(before, p);
        }
        assert(views(out@) =~= before.take(0).filter(p));
        for row in it: rows
            invariant
                it.seq() == list,
                before == views(list),
                p == other_key("d1_last_sync"@),
                views(out@) == before.take(it.index()).filter(p),
        {
            proof {
                assert(row@ == before[it.index()]);
                lemma_filter_step(before, it.index(), p);
                lemma_views_push(out@, row);
            }
            if !same(row.key.as_str(), "d1_last_sync") {
                out.push(row);
            }
        }
        let row: ConfigRow = ConfigRow { key: "d1_last_sync".to_string(), value: ts.to_string() };
        proof {
            lemma_filter_ends(before, p);
            lemma_views_push(out@, row);
        }
        out.push(row);
        self.config = out;
    }
}

/// The settings after the time of the last synchronisation with the cloud store is noted.
pub open spec fn with_last_sync(rows: Seq<ConfigRowV>, ts: Seq<char>) -> Seq<ConfigRowV> {
    rows.filter(other_key("d1_last_sync"@)).push(
        ConfigRowV { key: "d1_last_sync"@, value: ts },
    )
}

// ---- laws ----

/// Whether no setting is stored twice.
pub open spec fn distinct_settings(rows: Seq<ConfigRowV>) -> bool {
    distinct_by(rows, |r: ConfigRowV| r.key)
}

proof fn lemma_setting_absent(rows: Seq<ConfigRowV>, key: Seq<char>)
    requires
        setting(rows, key) is None,
    ensures
        forall|i: int| 0 <= i < rows.len() ==> (#[trigger] rows[i]).key != key,
    decreases rows.len(),
{
    if rows.len() > 0 {
        let rest = rows.drop_first();
        lemma_setting_absent(rest, key);
        assert forall|i: int| 0 <= i < rows.len() implies (#[trigger] rows[i]).key != key by {
            if i > 0 {
                assert(rest[i - 1].key != key);
            }
        }
    }
}

proof fn lemma_set_once(rows: Seq<ConfigRowV>, key: Seq<char>, value: Seq<char>)
    requires
        distinct_settings(rows),
    ensures
        distinct_settings(with_setting(rows, key, value)),
{
    let k = |r: ConfigRowV| r.key;
    let after = with_setting(rows, key, value);
    if setting(rows, key) is Some {
        assert forall|i: int, j: int|
            #![trigger after[i], after[j]]
            0 <= i < j < after.len() implies k(after[i]) != k(after[j]) by {
            assert(k(rows[i]) != k(rows[j]));
        }
    } else {
        lemma_setting_absent(rows, key);
        lemma_push_keeps_keys(rows, ConfigRowV { key, value }, k);
    }
}

/// Storing settings keeps one row for each.
pub proof fn law_one_row_per_setting(
    rows: Seq<ConfigRowV>,
    key: Seq<char>,
    value: Seq<char>,
    cfg: SyncConfigV,
    ts: Seq<char>,
)
    requires
        distinct_settings(rows),
    ensures
        distinct_settings(with_setting(rows, key, value)),
        distinct_settings(with_config(rows, cfg)),
        distinct_settings(with_last_sync(rows, ts)),
{
    lemma_set_once(rows, key, value);
    let k = |r: ConfigRowV| r.key;
    let others = rows.filter(other_key("d1_last_sync"@));
    lemma_filter_keeps_keys(rows, other_key("d1_last_sync"@), k);
    assert forall|i: int| 0 <= i < others.len() implies k(#[trigger] others[i])
        != "d1_last_sync"@ by {
        lemma_filter_member(rows, other_key("d1_last_sync"@), i);
    }
    lemma_push_keeps_keys(others, ConfigRowV { key: "d1_last_sync"@, value: ts }, k);
    let r0 = with_setting(rows, "enabled"@, flag_text(cfg.enabled));
    lemma_set_once(rows, "enabled"@, flag_text(cfg.enabled));
    let r1 = with_setting(r0, "http_enabled"@, flag_text(cfg.http_enabled));
    lemma_set_once(r0, "http_enabled"@, flag_text(cfg.http_enabled));
    let r2 = with_setting(r1, "discovery_method"@, cfg.discovery_method);
    lemma_set_once(r1, "discovery_method"@, cfg.discovery_method);
    let r3 = with_setting(r2, "listen_port"@, decimal(cfg.listen_port as int));
    lemma_set_once(r2, "listen_port"@, decimal(cfg.listen_port as int));
    let r4 = with_setting(r3, "udp_port"@, decimal(cfg.udp_port as int));
    lemma_set_once(r3, "udp_port"@, decimal(cfg.udp_port as int));
    let r5 = with_setting(r4, "sync_inbox"@, flag_text(cfg.sync_inbox));
    lemma_set_once(r4, "sync_inbox"@, flag_text(cfg.sync_inbox));
    let r6 = with_setting(r5, "sync_activity"@, flag_text(cfg.sync_activity));
    lemma_set_once(r5, "sync_activity"@, flag_text(cfg.sync_activity));
    let r7 = with_setting(r6, "self_alias"@, cfg.self_alias);
    lemma_set_once(r6, "self_alias"@, cfg.self_alias);
    let r8 = with_setting(r7, "probe_interval"@, decimal(cfg.probe_interval as int));
    lemma_set_once(r7, "probe_interval"@, decimal(cfg.probe_interval as int));
    let r9 = with_setting(r8, "sync_interval"@, decimal(usable_interval(cfg.sync_interval) as int));
    lemma_set_once(r8, "sync_interval"@, decimal(usable_interval(cfg.sync_interval) as int));
    let r10 = with_setting(r9, "d1_enabled"@, flag_text(cfg.d1_enabled));
    lemma_set_once(r9, "d1_enabled"@, flag_text(cfg.d1_enabled));
    let r11 = with_setting(r10, "d1_account_id"@, cfg.d1_account_id);
    lemma_set_once(r10, "d1_account_id"@, cfg.d1_account_id);
    let r12 = with_setting(r11, "d1_database_id"@, cfg.d1_database_id);
    lemma_set_once(r11, "d1_database_id"@, cfg.d1_database_id);
    let r13 = with_setting(r12, "d1_api_token"@, cfg.d1_api_token);
    lemma_set_once(r12, "d1_api_token"@, cfg.d1_api_token);
    lemma_set_once(r13, "d1_sync_interval"@, decimal(cfg.d1_sync_interval as int));
}

proof fn lemma_setting_last(rows: Seq<ConfigRowV>, last: ConfigRowV, key: Seq<char>)
    ensures
        setting(rows.push(last), key) == (if setting(rows, key) is Some {
            setting(rows, key)
        } else if last.key == key {
            Some(last.value)
        } else {
            None
        }),
    decreases rows.len(),
{
    if rows.len() > 0 {
        assert(rows.push(last).drop_first() =~= rows.drop_first().push(last));
        lemma_setting_last(rows.drop_first(), last, key);
    } else {
        assert(rows.push(last).drop_first() =~= rows);
    }
}

proof fn lemma_setting_replaced(
    rows: Seq<ConfigRowV>,
    after: Seq<ConfigRowV>,
    key: Seq<char>,
    value: Seq<char>,
    other: Seq<char>,
)
    requires
        after.len() == rows.len(),
        forall|i: int|
            0 <= i < rows.len() ==> #[trigger] after[i] == (if rows[i].key == key {
                ConfigRowV { key, value }
            } else {
                rows[i]
            }),
    ensures
        setting(rows, key) is Some ==> setting(after, key) == Some(value),
        other != key ==> setting(after, other) == setting(rows, other),
    decreases rows.len(),
{
    if rows.len() > 0 {
        lemma_setting_replaced(rows.drop_first(), after.drop_first(), key, value, other);
        assert(after[0].key == rows[0].key);
    }
}

/// A setting that was set reads back, and no other changes.
pub proof fn law_setting_reads_back(
    rows: Seq<ConfigRowV>,
    key: Seq<char>,
    value: Seq<char>,
    other: Seq<char>,
)
    ensures
        setting(with_setting(rows, key, value), key) == Some(value),
        other != key ==> setting(with_setting(rows, key, value), other) == setting(rows, other),
{
    if setting(rows, key) is Some {
        lemma_setting_replaced(rows, with_setting(rows, key, value), key, value, other);
    } else {
        lemma_setting_last(rows, ConfigRowV { key, value }, key);
        lemma_setting_last(rows, ConfigRowV { key, value }, other);
    }
}

proof fn lemma_settings_kept(rows: Seq<ConfigRowV>, key: Seq<char>, value: Seq<char>)
    ensures
        setting(with_setting(rows, key, value), key) == Some(value),
        forall|other: Seq<char>|
            other != key ==> #[trigger] setting(with_setting(rows, key, value), other) == setting(
                rows,
                other,
            ),
{
    law_setting_reads_back(rows, key, value, key);
    assert forall|other: Seq<char>| other != key implies #[trigger] setting(
        with_setting(rows, key, value),
        other,
    ) == setting(rows, other) by {
        law_setting_reads_back(rows, key, value, other);
    }
}

/// The time of the last synchronisation with the cloud store reads back.
pub proof fn law_last_sync_reads_back(rows: Seq<ConfigRowV>, ts: Seq<char>)
    ensures
        setting(with_last_sync(rows, ts), "d1_last_sync"@) == Some(ts),
{
    let key = "d1_last_sync"@;
    let kept = rows.filter(other_key(key));
    lemma_key_dropped(rows, key);
    lemma_setting_last(kept, ConfigRowV { key, value: ts }, key);
}

proof fn lemma_key_dropped(rows: Seq<ConfigRowV>, key: Seq<char>)
    ensures
        setting(rows.filter(other_key(key)), key) is None,
    decreases rows.len(),
{
    reveal(Seq::filter);
    if rows.len() > 0 {
        let rest = rows.drop_last();
        lemma_key_dropped(rest, key);
        lemma_setting_last(rest.filter(other_key(key)), rows.last(), key);
    }
}

proof fn lemma_keys_differ()
    ensures
        "enabled"@ != "http_enabled"@,
        "enabled"@ != "discovery_method"@,
        "enabled"@ != "listen_port"@,
        "enabled"@ != "udp_port"@,
        "enabled"@ != "sync_inbox"@,
        "enabled"@ != "sync_activity"@,
        "enabled"@ != "self_alias"@,
        "enabled"@ != "probe_interval"@,
        "enabled"@ != "sync_interval"@,
        "enabled"@ != "d1_enabled"@,
        "enabled"@ != "d1_account_id"@,
        "enabled"@ != "d1_database_id"@,
        "enabled"@ != "d1_api_token"@,
        "enabled"@ != "d1_sync_interval"@,
        "http_enabled"@ != "discovery_method"@,
        "http_enabled"@ != "listen_port"@,
        "http_enabled"@ != "udp_port"@,
        "http_enabled"@ != "sync_inbox"@,
        "http_enabled"@ != "sync_activity"@,
        "http_enabled"@ != "self_alias"@,
        "http_enabled"@ != "probe_interval"@,
        "http_enabled"@ != "sync_interval"@,
        "http_enabled"@ != "d1_enabled"@,
        "http_enabled"@ != "d1_account_id"@,
        "http_enabled"@ != "d1_database_id"@,
        "http_enabled"@ != "d1_api_token"@,
        "http_enabled"@ != "d1_sync_interval"@,
        "discovery_method"@ != "listen_port"@,
        "discovery_method"@ != "udp_port"@,
        "discovery_method"@ != "sync_inbox"@,
        "discovery_method"@ != "sync_activity"@,
        "discovery_method"@ != "self_alias"@,
        "discovery_method"@ != "probe_interval"@,
        "discovery_method"@ != "sync_interval"@,
        "discovery_method"@ != "d1_enabled"@,
        "discovery_method"@ != "d1_account_id"@,
        "discovery_method"@ != "d1_database_id"@,
        "discovery_method"@ != "d1_api_token"@,
        "discovery_method"@ != "d1_sync_interval"@,
        "listen_port"@ != "udp_port"@,
        "listen_port"@ != "sync_inbox"@,
        "listen_port"@ != "sync_activity"@,
        "listen_port"@ != "self_alias"@,
        "listen_port"@ != "probe_interval"@,
        "listen_port"@ != "sync_interval"@,
        "listen_port"@ != "d1_enabled"@,
        "listen_port"@ != "d1_account_id"@,
        "listen_port"@ != "d1_database_id"@,
        "listen_port"@ != "d1_api_token"@,
        "listen_port"@ != "d1_sync_interval"@,
        "udp_port"@ != "sync_inbox"@,
        "udp_port"@ != "sync_activity"@,
        "udp_port"@ != "self_alias"@,
        "udp_port"@ != "probe_interval"@,
        "udp_port"@ != "sync_interval"@,
        "udp_port"@ != "d1_enabled"@,
        "udp_port"@ != "d1_account_id"@,
        "udp_port"@ != "d1_database_id"@,
        "udp_port"@ != "d1_api_token"@,
        "udp_port"@ != "d1_sync_interval"@,
        "sync_inbox"@ != "sync_activity"@,
        "sync_inbox"@ != "self_alias"@,
        "sync_inbox"@ != "probe_interval"@,
        "sync_inbox"@ != "sync_interval"@,
        "sync_inbox"@ != "d1_enabled"@,
        "sync_inbox"@ != "d1_account_id"@,
        "sync_inbox"@ != "d1_database_id"@,
        "sync_inbox"@ != "d1_api_token"@,
        "sync_inbox"@ != "d1_sync_interval"@,
        "sync_activity"@ != "self_alias"@,
        "sync_activity"@ != "probe_interval"@,
        "sync_activity"@ != "sync_interval"@,
        "sync_activity"@ != "d1_enabled"@,
        "sync_activity"@ != "d1_account_id"@,
        "sync_activity"@ != "d1_database_id"@,
        "sync_activity"@ != "d1_api_token"@,
        "sync_activity"@ != "d1_sync_interval"@,
        "self_alias"@ != "probe_interval"@,
        "self_alias"@ != "sync_interval"@,
        "self_alias"@ != "d1_enabled"@,
        "self_alias"@ != "d1_account_id"@,
        "self_alias"@ != "d1_database_id"@,
        "self_alias"@ != "d1_api_token"@,
        "self_alias"@ != "d1_sync_interval"@,
        "probe_interval"@ != "sync_interval"@,
        "probe_interval"@ != "d1_enabled"@,
        "probe_interval"@ != "d1_account_id"@,
        "probe_interval"@ != "d1_database_id"@,
        "probe_interval"@ != "d1_api_token"@,
        "probe_interval"@ != "d1_sync_interval"@,
        "sync_interval"@ != "d1_enabled"@,
        "sync_interval"@ != "d1_account_id"@,
        "sync_interval"@ != "d1_database_id"@,
        "sync_interval"@ != "d1_api_token"@,
        "sync_interval"@ != "d1_sync_interval"@,
        "d1_enabled"@ != "d1_account_id"@,
        "d1_enabled"@ != "d1_database_id"@,
        "d1_enabled"@ != "d1_api_token"@,
        "d1_enabled"@ != "d1_sync_interval"@,
        "d1_account_id"@ != "d1_database_id"@,
        "d1_account_id"@ != "d1_api_token"@,
        "d1_account_id"@ != "d1_sync_interval"@,
        "d1_database_id"@ != "d1_api_token"@,
        "d1_database_id"@ != "d1_sync_interval"@,
        "d1_api_token"@ != "d1_sync_interval"@,
{
    reveal_strlit("enabled");
    reveal_strlit("http_enabled");
    reveal_strlit("discovery_method");
    reveal_strlit("listen_port");
    reveal_strlit("udp_port");
    reveal_strlit("sync_inbox");
    reveal_strlit("sync_activity");
    reveal_strlit("self_alias");
    reveal_strlit("probe_interval");
    reveal_strlit("sync_interval");
    reveal_strlit("d1_enabled");
    reveal_strlit("d1_account_id");
    reveal_strlit("d1_database_id");
    reveal_strlit("d1_api_token");
    reveal_strlit("d1_sync_interval");
    assert("enabled"@.len() == 7);
    assert("http_enabled"@.len() == 12);
    assert("discovery_method"@.len() == 16);
    assert("listen_port"@.len() == 11);
    assert("udp_port"@.len() == 8);
    assert("sync_inbox"@.len() == 10);
    assert("sync_activity"@.len() == 13);
    assert("self_alias"@.len() == 10);
    assert("probe_interval"@.len() == 14);
    assert("sync_interval"@.len() == 13);
    assert("d1_enabled"@.len() == 10);
    assert("d1_account_id"@.len() == 13);
    assert("d1_database_id"@.len() == 14);
    assert("d1_api_token"@.len() == 12);
    assert("d1_sync_interval"@.len() == 16);
    assert("http_enabled"@[0] != "d1_api_token"@[0]);
    assert("discovery_method"@[1] != "d1_sync_interval"@[1]);
    assert("sync_inbox"@[1] != "self_alias"@[1]);
    assert("sync_inbox"@[0] != "d1_enabled"@[0]);
    assert("sync_activity"@[5] != "sync_interval"@[5]);
    assert("sync_activity"@[0] != "d1_account_id"@[0]);
    assert("self_alias"@[0] != "d1_enabled"@[0]);
    assert("probe_interval"@[0] != "d1_database_id"@[0]);
    assert("sync_interval"@[0] != "d1_account_id"@[0]);
}

/// Settings that were stored read back: ports that are zero become the defaults, a
/// synchronisation interval of one to four seconds becomes five while zero stays zero, and
/// whether to-dos are synchronised is not stored.
pub proof fn law_config_reads_back(rows: Seq<ConfigRowV>, cfg: SyncConfigV)
    ensures
        config_of(with_config(rows, cfg)) == (SyncConfigV {
            listen_port: if cfg.listen_port == 0 {
                DEFAULT_HTTP_PORT
            } else {
                cfg.listen_port
            },
            udp_port: if cfg.udp_port == 0 {
                DEFAULT_UDP_PORT
            } else {
                cfg.udp_port
            },
            sync_interval: if 0 < cfg.sync_interval < 5 {
                5
            } else {
                cfg.sync_interval
            },
            sync_todo: default_config().sync_todo,
            ..cfg
        }),
{
    lemma_keys_differ();
    lemma_true_is_not_false();
    let r0 = with_setting(rows, "enabled"@, flag_text(cfg.enabled));
    lemma_settings_kept(rows, "enabled"@, flag_text(cfg.enabled));
    let r1 = with_setting(r0, "http_enabled"@, flag_text(cfg.http_enabled));
    lemma_settings_kept(r0, "http_enabled"@, flag_text(cfg.http_enabled));
    let r2 = with_setting(r1, "discovery_method"@, cfg.discovery_method);
    lemma_settings_kept(r1, "discovery_method"@, cfg.discovery_method);
    let r3 = with_setting(r2, "listen_port"@, decimal(cfg.listen_port as int));
    lemma_settings_kept(r2, "listen_port"@, decimal(cfg.listen_port as int));
    let r4 = with_setting(r3, "udp_port"@, decimal(cfg.udp_port as int));
    lemma_settings_kept(r3, "udp_port"@, decimal(cfg.udp_port as int));
    let r5 = with_setting(r4, "sync_inbox"@, flag_text(cfg.sync_inbox));
    lemma_settings_kept(r4, "sync_inbox"@, flag_text(cfg.sync_inbox));
    let r6 = with_setting(r5, "sync_activity"@, flag_text(cfg.sync_activity));
    lemma_settings_kept(r5, "sync_activity"@, flag_text(cfg.sync_activity));
    let r7 = with_setting(r6, "self_alias"@, cfg.self_alias);
    lemma_settings_kept(r6, "self_alias"@, cfg.self_alias);
    let r8 = with_setting(r7, "probe_interval"@, decimal(cfg.probe_interval as int));
    lemma_settings_kept(r7, "probe_interval"@, decimal(cfg.probe_interval as int));
    let r9 = with_setting(r8, "sync_interval"@, decimal(usable_interval(cfg.sync_interval) as int));
    lemma_settings_kept(r8, "sync_interval"@, decimal(usable_interval(cfg.sync_interval) as int));
    let r10 = with_setting(r9, "d1_enabled"@, flag_text(cfg.d1_enabled));
    lemma_settings_kept(r9, "d1_enabled"@, flag_text(cfg.d1_enabled));
    let r11 = with_setting(r10, "d1_account_id"@, cfg.d1_account_id);
    lemma_settings_kept(r10, "d1_account_id"@, cfg.d1_account_id);
    let r12 = with_setting(r11, "d1_database_id"@, cfg.d1_database_id);
    lemma_settings_kept(r11, "d1_database_id"@, cfg.d1_database_id);
    let r13 = with_setting(r12, "d1_api_token"@, cfg.d1_api_token);
    lemma_settings_kept(r12, "d1_api_token"@, cfg.d1_api_token);
    let r14 = with_setting(r13, "d1_sync_interval"@, decimal(cfg.d1_sync_interval as int));
    lemma_settings_kept(r13, "d1_sync_interval"@, decimal(cfg.d1_sync_interval as int));
    law_decimal_reads_back(cfg.listen_port as int, false, 0, 65535);
    law_decimal_reads_back(cfg.udp_port as int, false, 0, 65535);
    law_decimal_reads_back(cfg.probe_interval as int, false, 0, 65535);
    law_decimal_reads_back(usable_interval(cfg.sync_interval) as int, false, 0, u64::MAX as int);
    law_decimal_reads_back(cfg.d1_sync_interval as int, true, i64::MIN as int, i64::MAX as int);
}

/// The texts of the two truth values differ.
pub proof fn lemma_true_is_not_false()
    ensures
        "true"@ != "false"@,
{
    reveal_strlit("true");
    reveal_strlit("false");
    assert("true"@.len() == 4);
    assert("false"@.len() == 5);
}

/// Where nothing is stored, synchronisation is off, every kind of data takes part, the usual
/// ports are used, and rounds are ten seconds apart.
pub proof fn law_defaults(rows: Seq<ConfigRowV>)
    requires
        rows.len() == 0,
    ensures
        ({
            let c = config_of(rows);
            &&& !c.enabled
            &&& c.http_enabled
            &&& c.discovery_method == "mdns"@
            &&& c.listen_port == 5600
            &&& c.udp_port == 46000
            &&& c.sync_inbox && c.sync_activity && c.sync_todo
            &&& c.self_alias.len() == 0
            &&& c.probe_interval == 10
            &&& c.sync_interval == 10
            &&& !c.d1_enabled
            &&& c.d1_account_id.len() == 0
            &&& c.d1_database_id.len() == 0
            &&& c.d1_api_token.len() == 0
            &&& c.d1_sync_interval == 300
        }),
{
    reveal_strlit("");
}

/// All settings are told under their keys in their order: truth values as such, numbers as such,
/// and all else as it is stored.
pub proof fn law_all_settings_are_told(rows: Seq<ConfigRowV>, i: int)
    requires
        0 <= i < rows.len(),
    ensures
        all_settings(rows).len() == rows.len(),
        all_settings(rows)[i].0 == rows[i].key,
        ({
            let (key, value) = (rows[i].key, rows[i].value);
            let told = all_settings(rows)[i].1;
            let flag = key == "enabled"@ || key == "http_enabled"@ || key == "sync_inbox"@ || key
                == "sync_activity"@ || key == "d1_enabled"@;
            let small = key == "listen_port"@ || key == "udp_port"@ || key == "probe_interval"@;
            &&& flag && value == "true"@ ==> told == ConfigValueV::Flag(true)
            &&& flag && value == "false"@ ==> told == ConfigValueV::Flag(false)
            &&& small ==> forall|n: u16|
                value == #[trigger] decimal(n as int) ==> told == ConfigValueV::Number(n as u64)
            &&& key == "sync_interval"@ ==> forall|n: u64|
                value == #[trigger] decimal(n as int) ==> told == ConfigValueV::Number(n)
            &&& !flag && !small && key != "sync_interval"@ ==> told == ConfigValueV::Text(value)
        }),
{
    let (key, value) = (rows[i].key, rows[i].value);
    lemma_keys_differ();
    lemma_true_is_not_false();
    assert forall|n: u16| value == #[trigger] decimal(n as int) implies number16(value) == n by {
        law_decimal_reads_back(n as int, false, 0, 65535);
    }
    assert forall|n: u64| value == #[trigger] decimal(n as int) implies parsed_integer(
        value,
        false,
        0,
        u64::MAX as int,
    ) == Some(n as int) by {
        law_decimal_reads_back(n as int, false, 0, u64::MAX as int);
    }
}

/// Noting the last synchronisation with the cloud store changes no other setting.
pub proof fn law_last_sync_is_apart(rows: Seq<ConfigRowV>, ts: Seq<char>, other: Seq<char>)
    requires
        other != "d1_last_sync"@,
    ensures
        setting(with_last_sync(rows, ts), other) == setting(rows, other),
{
    let key = "d1_last_sync"@;
    lemma_others_kept(rows, key, other);
    lemma_setting_last(rows.filter(other_key(key)), ConfigRowV { key, value: ts }, other);
}

proof fn lemma_others_kept(rows: Seq<ConfigRowV>, key: Seq<char>, other: Seq<char>)
    requires
        other != key,
    ensures
        setting(rows.filter(other_key(key)), other) == setting(rows, other),
    decreases rows.len(),
{
    reveal(Seq::filter);
    if rows.len() > 0 {
        let rest = rows.drop_last();
        lemma_others_kept(rest, key, other);
        lemma_setting_last(rest, rows.last(), other);
        lemma_setting_last(rest.filter(other_key(key)), rows.last(), other);
        assert(rows =~= rest.push(rows.last()));
    }
}

/// A stored truth value is on where it says so and off else. A port that cannot be read or is
/// zero is the usual one; an interval that cannot be read is ten seconds, that of the cloud store
/// five minutes, and that of probes nothing.
pub proof fn law_unreadable_settings(rows: Seq<ConfigRowV>, v: Seq<char>)
    requires
        parsed_integer(v, false, 0, 65535) is None,
        parsed_integer(v, false, 0, u64::MAX as int) is None,
        parsed_integer(v, true, i64::MIN as int, i64::MAX as int) is None,
    ensures
        ({
            let c = config_of(rows);
            &&& setting(rows, "listen_port"@) == Some(v) ==> c.listen_port == 5600
            &&& setting(rows, "udp_port"@) == Some(v) ==> c.udp_port == 46000
            &&& setting(rows, "probe_interval"@) == Some(v) ==> c.probe_interval == 0
            &&& setting(rows, "sync_interval"@) == Some(v) ==> c.sync_interval == 10
            &&& setting(rows, "d1_sync_interval"@) == Some(v) ==> c.d1_sync_interval == 300
        }),
{
}

/// What is stored of truth values counts: `true` is on, anything else is off, and what is not
/// stored is as usual.
pub proof fn law_stored_truth_values(rows: Seq<ConfigRowV>, v: Seq<char>)
    ensures
        ({
            let c = config_of(rows);
            &&& setting(rows, "enabled"@) == Some(v) ==> (c.enabled <==> v == "true"@)
            &&& setting(rows, "http_enabled"@) == Some(v) ==> (c.http_enabled <==> v == "true"@)
            &&& setting(rows, "sync_inbox"@) == Some(v) ==> (c.sync_inbox <==> v == "true"@)
            &&& setting(rows, "sync_activity"@) == Some(v) ==> (c.sync_activity <==> v == "true"@)
            &&& setting(rows, "d1_enabled"@) == Some(v) ==> (c.d1_enabled <==> v == "true"@)
            &&& setting(rows, "enabled"@) is None ==> !c.enabled
            &&& setting(rows, "http_enabled"@) is None ==> c.http_enabled
            &&& setting(rows, "sync_inbox"@) is None ==> c.sync_inbox
            &&& setting(rows, "sync_activity"@) is None ==> c.sync_activity
            &&& setting(rows, "d1_enabled"@) is None ==> !c.d1_enabled
            &&& setting(rows, "sync_interval"@) is None ==> c.sync_interval == 10
            &&& setting(rows, "probe_interval"@) is None ==> c.probe_interval == 10
            &&& setting(rows, "d1_sync_interval"@) is None ==> c.d1_sync_interval == 300
        }),
{
}

} // verus!
