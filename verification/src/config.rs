//! The dynamic configuration store: the single source of truth for
//! runtime-mutable settings.
//!
//! Readers see an immutable mapping from key to string value.  Typed getters
//! never fail: a missing key, or a value that does not parse into the
//! requested type, falls back to the supplied default.  A reload replaces
//! the whole mapping at once or leaves it exactly as it was.

use vstd::prelude::*;
use crate::numeric::{parse_bool, parse_bool_spec, parse_i32, parse_i32_spec, parse_u64,
    parse_u64_spec};
use crate::registry::entry_at;

verus! {

/// One configuration setting.
pub struct ConfigEntry {
    pub key: String,
    pub value: String,
}

/// Key projection of a configuration entry.
pub open spec fn cfg_key() -> spec_fn(ConfigEntry) -> Seq<char> {
    |e: ConfigEntry| e.key@
}

/// The value stored under `k`, where a later entry shadows an earlier one.
pub open spec fn cfg_value_at(s: Seq<ConfigEntry>, k: Seq<char>) -> Option<Seq<char>> {
    match entry_at(s, cfg_key(), k) {
        Some(e) => Some(e.value@),
        None => None,
    }
}

/// What `get_bool` returns: the stored value if it parses as a boolean,
/// the default otherwise.
pub open spec fn spec_get_bool(s: Seq<ConfigEntry>, k: Seq<char>, default: bool) -> bool {
    match cfg_value_at(s, k) {
        Some(v) => match parse_bool_spec(v) {
            Some(b) => b,
            None => default,
        },
        None => default,
    }
}

/// What `get_i32` returns.
pub open spec fn spec_get_i32(s: Seq<ConfigEntry>, k: Seq<char>, default: i32) -> i32 {
    match cfg_value_at(s, k) {
        Some(v) => match parse_i32_spec(v) {
            Some(n) => n,
            None => default,
        },
        None => default,
    }
}

/// What `get_u64` returns.
pub open spec fn spec_get_u64(s: Seq<ConfigEntry>, k: Seq<char>, default: u64) -> u64 {
    match cfg_value_at(s, k) {
        Some(v) => match parse_u64_spec(v) {
            Some(n) => n,
            None => default,
        },
        None => default,
    }
}

/// What `equals_value` returns: the key is present and holds exactly this
/// value.
pub open spec fn spec_equals_value(s: Seq<ConfigEntry>, k: Seq<char>, v: Seq<char>) -> bool {
    cfg_value_at(s, k) == Some(v)
}

/// What `is_replica_cluster` returns.
pub open spec fn spec_is_replica_cluster(s: Seq<ConfigEntry>) -> bool {
    (spec_get_bool(s, "IsPostgresInRecovery"@, false) && spec_equals_value(
        s,
        "citus.use_secondary_nodes"@,
        "always"@,
    )) || spec_get_bool(s, "simulateReadReplica"@, false)
}

/// What `system_connection_budget` returns.
pub open spec fn spec_system_connection_budget(s: Seq<ConfigEntry>) -> usize {
    let n = spec_get_i32(s, "systemConnectionBudget"@, 7);
    if n < 0 {
        0
    } else {
        n as usize
    }
}

/// What `max_connections` returns.
pub open spec fn spec_max_connections(s: Seq<ConfigEntry>) -> usize {
    let n = spec_get_i32(s, "max_connections"@, -1i32);
    if n < 0 {
        25
    } else {
        n as usize
    }
}

/// View of an optional owned string.
pub open spec fn opt_string_view(o: Option<String>) -> Option<Seq<char>> {
    match o {
        Some(s) => Some(s@),
        None => None,
    }
}

/// The string fields of the host configuration file: primary-role and
/// shutdown-response-mode, as `parse_host_config` extracts them.
pub uninterp spec fn host_fields_of(s: Seq<char>) -> Option<(Seq<char>, Seq<char>)>;

/// The host configuration file's contents, as parsed: flat JSON with
/// string-boolean fields for primary-role and shutdown-response-mode.
pub struct HostConfig {
    pub is_primary: String,
    pub send_shutdown_responses: String,
}

/// Relies on serde_json::from_str: parses the flat JSON host-configuration
/// object; a missing field is the empty string, a non-object or an
/// unparsable field is no configuration at all.  The result depends on the
/// text alone.
#[verifier::external_body]
pub fn parse_host_config(s: &str) -> (r: Option<HostConfig>)
    ensures
        match r {
            Some(h) => host_fields_of(s@) == Some((h.is_primary@, h.send_shutdown_responses@)),
            None => host_fields_of(s@).is_none(),
        },
{
    let v: serde_json::Value = serde_json::from_str(s).ok()?;
    if !v.is_object() {
        return None;
    }
    let is_primary = match v.get("IsPrimary") {
        None => String::new(),
        Some(f) => f.as_str()?.to_string(),
    };
    let send_shutdown_responses = match v.get("SendShutdownResponses") {
        None => String::new(),
        Some(f) => f.as_str()?.to_string(),
    };
    Some(HostConfig { is_primary, send_shutdown_responses })
}

/// What lower-casing a string yields.
pub uninterp spec fn lower_of(s: Seq<char>) -> Seq<char>;

/// Relies on str::to_lowercase: the result depends on the characters alone.
#[verifier::external_body]
fn lowercase(s: &str) -> (r: String)
    ensures
        r@ == lower_of(s@),
{
    s.to_lowercase()
}

/// Backend boolean literals normalized to canonical `true` / `false`.
pub open spec fn spec_normalize_value(v: Seq<char>) -> Seq<char> {
    if v == "on"@ {
        "true"@
    } else if v == "off"@ {
        "false"@
    } else {
        v
    }
}

/// Normalizes a backend boolean literal to canonical `true` / `false`.
fn normalize_value(v: &String) -> (r: String)
    ensures
        r@ == spec_normalize_value(v@),
{
    if *v == String::from_str("on") {
        String::from_str("true")
    } else if *v == String::from_str("off") {
        String::from_str("false")
    } else {
        v.clone()
    }
}

/// Whether `p` is a character-wise prefix of `s`.
fn str_starts_with(s: &str, p: &str) -> (r: bool)
    ensures
        r == p@.is_prefix_of(s@),
{
    let sn = s.unicode_len();
    let pn = p.unicode_len();
    if pn > sn {
        return false;
    }
    let mut i: usize = 0;
    while i < pn
        invariant
            i <= pn,
            pn == p@.len(),
            pn <= sn,
            sn == s@.len(),
            forall|j: int| 0 <= j < i ==> p@[j] == s@[j],
        decreases pn - i,
    {
        if s.get_char(i) != p.get_char(i) {
            proof {
                if p@.is_prefix_of(s@) {
                    assert(p@[i as int] == s@.subrange(0, pn as int)[i as int]);
                }
            }
            return false;
        }
        i = i + 1;
    }
    proof {
        assert(p@ =~= s@.subrange(0, pn as int));
    }
    true
}

/// The key with the first matching prefix of the list removed.
pub open spec fn strip_prefixes_spec(key: Seq<char>, ps: Seq<String>) -> Seq<char>
    decreases ps.len(),
{
    if ps.len() == 0 {
        key
    } else if ps.first()@.is_prefix_of(key) {
        key.skip(ps.first()@.len() as int)
    } else {
        strip_prefixes_spec(key, ps.drop_first())
    }
}

/// Removes the first matching settings prefix from a configuration key.
fn strip_prefixes(key: &str, prefixes: &Vec<String>) -> (r: String)
    ensures
        r@ == strip_prefixes_spec(key@, prefixes@),
{
    let n = prefixes.len();
    let mut i: usize = 0;
    proof {
        assert(prefixes@.skip(0) =~= prefixes@);
    }
    while i < n
        invariant
            i <= n,
            n == prefixes@.len(),
            strip_prefixes_spec(key@, prefixes@.skip(i as int)) == strip_prefixes_spec(
                key@,
                prefixes@,
            ),
        decreases n - i,
    {
        let p: &String = &prefixes[i];
        if str_starts_with(key, p.as_str()) {
            let kn = key.unicode_len();
            let pn = p.as_str().unicode_len();
            let rest = key.substring_char(pn, kn);
            proof {
                assert(rest@ =~= key@.skip(pn as int));
            }
            return String::from_str(rest);
        }
        proof {
            assert(prefixes@.skip(i as int).drop_first() =~= prefixes@.skip(i + 1));
        }
        i = i + 1;
    }
    String::from_str(key)
}

/// How many entries the host configuration contributes to a merged
/// snapshot.
pub open spec fn host_part_len(host_file: Option<Seq<char>>) -> int {
    match host_file {
        Some(f) => match host_fields_of(f) {
            Some(fields) => 2,
            None => 0,
        },
        None => 0,
    }
}

/// Builds the new configuration snapshot of one reload, from the host
/// configuration file's text (where it could be read), the settings-dump
/// rows, and the recovery probe: host fields first, lower-cased; then each
/// row with its settings prefix stripped and its boolean literals
/// normalized; then the recovery flag, which shadows everything.
pub fn merged_configuration(
    host_file: Option<&String>,
    rows: &Vec<ConfigEntry>,
    prefixes: &Vec<String>,
    in_recovery: bool,
) -> (r: Vec<ConfigEntry>)
    ensures
        ({
            let hf = match host_file {
                Some(f) => Some(f@),
                None => None,
            };
            let hp = host_part_len(hf);
            &&& r@.len() == hp + rows@.len() + 1
            &&& match hf {
                Some(f) => match host_fields_of(f) {
                    Some(fields) => r@[0].key@ == "IsPrimary"@ && r@[0].value@ == lower_of(
                        fields.0,
                    ) && r@[1].key@ == "SendShutdownResponses"@ && r@[1].value@ == lower_of(
                        fields.1,
                    ),
                    None => true,
                },
                None => true,
            }
            &&& forall|j: int|
                hp <= j < hp + rows@.len() ==> (#[trigger] r@[j]).key@ == strip_prefixes_spec(
                    rows@[j - hp].key@,
                    prefixes@,
                ) && r@[j].value@ == spec_normalize_value(rows@[j - hp].value@)
            &&& r@.last().key@ == "IsPostgresInRecovery"@
            &&& r@.last().value@ == (if in_recovery {
                "true"@
            } else {
                "false"@
            })
        }),
{
    let mut r: Vec<ConfigEntry> = Vec::new();
    match host_file {
        Some(f) => {
            match parse_host_config(f.as_str()) {
                Some(host) => {
                    r.push(
                        ConfigEntry {
                            key: String::from_str("IsPrimary"),
                            value: lowercase(host.is_primary.as_str()),
                        },
                    );
                    r.push(
                        ConfigEntry {
                            key: String::from_str("SendShutdownResponses"),
                            value: lowercase(host.send_shutdown_responses.as_str()),
                        },
                    );
                },
                None => {},
            }
        },
        None => {},
    }
    let ghost hp = r@.len() as int;
    let ghost r0 = r@;
    let n = rows.len();
    let mut j: usize = 0;
    while j < n
        invariant
            j <= n,
            n == rows@.len(),
            r@.len() == hp + j,
            r0.len() == hp,
            forall|a: int| 0 <= a < hp ==> #[trigger] r@[a] == r0[a],
            forall|a: int|
                hp <= a < hp + j ==> (#[trigger] r@[a]).key@ == strip_prefixes_spec(
                    rows@[a - hp].key@,
                    prefixes@,
                ) && r@[a].value@ == spec_normalize_value(rows@[a - hp].value@),
        decreases n - j,
    {
        r.push(
            ConfigEntry {
                key: strip_prefixes(rows[j].key.as_str(), prefixes),
                value: normalize_value(&rows[j].value),
            },
        );
        j = j + 1;
    }
    r.push(
        ConfigEntry {
            key: String::from_str("IsPostgresInRecovery"),
            value: if in_recovery {
                String::from_str("true")
            } else {
                String::from_str("false")
            },
        },
    );
    r
}

/// The dynamic configuration store.
///
/// Holds the current snapshot of settings and the tick of the last
/// successful reload.  The snapshot is only ever replaced wholesale.
pub struct ConfigStore {
    entries: Vec<ConfigEntry>,
    last_update_at: u64,
}

impl View for ConfigStore {
    type V = Seq<ConfigEntry>;

    closed spec fn view(&self) -> Seq<ConfigEntry> {
        self.entries@
    }
}

impl ConfigStore {
    /// A store holding the given initial snapshot, loaded at tick `now`.
    pub fn new(initial: Vec<ConfigEntry>, now: u64) -> (r: ConfigStore)
        ensures
            r@ == initial@,
            r.spec_last_update_at() == now,
    {
        ConfigStore { entries: initial, last_update_at: now }
    }

    /// Tick of the last successful reload.
    pub closed spec fn spec_last_update_at(&self) -> u64 {
        self.last_update_at
    }

    /// Tick of the last successful reload.
    pub fn last_update_at(&self) -> (r: u64)
        ensures
            r == self.spec_last_update_at(),
    {
        self.last_update_at
    }

    /// The entry holding `key`, if one does.
    fn find_value(&self, key: &str) -> (r: Option<&String>)
        ensures
            match r {
                Some(v) => cfg_value_at(self@, key@) == Some(v@),
                None => cfg_value_at(self@, key@).is_none(),
            },
    {
        let k = String::from_str(key);
        let n = self.entries.len();
        let mut i = n;
        proof {
            assert(self.entries@.take(n as int) =~= self.entries@);
        }
        while i > 0
            invariant
                i <= n,
                n == self.entries@.len(),
                k@ == key@,
                entry_at(self.entries@.take(i as int), cfg_key(), key@) == entry_at(
                    self.entries@,
                    cfg_key(),
                    key@,
                ),
            decreases i,
        {
            i = i - 1;
            proof {
                assert(self.entries@.take(i + 1).drop_last() =~= self.entries@.take(i as int));
                assert(self.entries@.take(i + 1).last() == self.entries@[i as int]);
            }
            if self.entries[i].key == k {
                return Some(&self.entries[i].value);
            }
        }
        proof {
            assert(self.entries@.take(0) =~= Seq::<ConfigEntry>::empty());
        }
        None
    }

    /// The stored string value of `key`, if any.
    pub fn get_str(&self, key: &str) -> (r: Option<String>)
        ensures
            opt_string_view(r) == cfg_value_at(self@, key@),
    {
        match self.find_value(key) {
            Some(v) => Some(v.clone()),
            None => None,
        }
    }

    /// The stored value of `key` parsed as a boolean; the default where the
    /// key is missing or its value is not a boolean literal.
    pub fn get_bool(&self, key: &str, default: bool) -> (r: bool)
        ensures
            r == spec_get_bool(self@, key@, default),
    {
        match self.find_value(key) {
            Some(v) => match parse_bool(v.as_str()) {
                Some(b) => b,
                None => default,
            },
            None => default,
        }
    }

    /// The stored value of `key` parsed as an `i32`; the default where the
    /// key is missing or its value does not parse.
    pub fn get_i32(&self, key: &str, default: i32) -> (r: i32)
        ensures
            r == spec_get_i32(self@, key@, default),
    {
        match self.find_value(key) {
            Some(v) => match parse_i32(v.as_str()) {
                Some(n) => n,
                None => default,
            },
            None => default,
        }
    }

    /// The stored value of `key` parsed as a `u64`; the default where the
    /// key is missing or its value does not parse.
    pub fn get_u64(&self, key: &str, default: u64) -> (r: u64)
        ensures
            r == spec_get_u64(self@, key@, default),
    {
        match self.find_value(key) {
            Some(v) => match parse_u64(v.as_str()) {
                Some(n) => n,
                None => default,
            },
            None => default,
        }
    }

    /// Whether `key` is present and holds exactly `value`.
    pub fn equals_value(&self, key: &str, value: &str) -> (r: bool)
        ensures
            r == spec_equals_value(self@, key@, value@),
    {
        match self.find_value(key) {
            Some(v) => {
                let w = String::from_str(value);
                *v == w
            },
            None => false,
        }
    }

    /// Whether change streams are enabled.
    pub fn enable_change_streams(&self) -> (r: bool)
        ensures
            r == spec_get_bool(self@, "enableChangeStreams"@, false),
    {
        self.get_bool("enableChangeStreams", false)
    }

    /// Whether connection-status reporting is enabled.
    pub fn enable_connection_status(&self) -> (r: bool)
        ensures
            r == spec_get_bool(self@, "enableConnectionStatus"@, false),
    {
        self.get_bool("enableConnectionStatus", false)
    }

    /// Whether verbose gateway logging is enabled.
    pub fn enable_verbose_logging_gateway(&self) -> (r: bool)
        ensures
            r == spec_get_bool(self@, "enableVerboseLoggingGateway"@, false),
    {
        self.get_bool("enableVerboseLoggingGateway", false)
    }

    /// How long to sleep between polls while an index build runs.
    pub fn index_build_sleep_milli_secs(&self) -> (r: i32)
        ensures
            r == spec_get_i32(self@, "indexBuildWaitSleepTimeInMilliSec"@, 1000),
    {
        self.get_i32("indexBuildWaitSleepTimeInMilliSec", 1000)
    }

    /// Whether the backend accepts writes: it is not in recovery.
    pub fn is_postgres_writable(&self) -> (r: bool)
        ensures
            r == !spec_get_bool(self@, "IsPostgresInRecovery"@, false),
    {
        !self.get_bool("IsPostgresInRecovery", false)
    }

    /// Whether the backend rejects writes because its disk is full.
    pub fn is_read_only_for_disk_full(&self) -> (r: bool)
        ensures
            r == spec_get_bool(self@, "default_transaction_read_only"@, false),
    {
        self.get_bool("default_transaction_read_only", false)
    }

    /// Whether this gateway fronts a replica cluster: the backend is in
    /// recovery and reads go to secondaries, or replica behaviour is
    /// simulated.
    pub fn is_replica_cluster(&self) -> (r: bool)
        ensures
            r == spec_is_replica_cluster(self@),
    {
        (self.get_bool("IsPostgresInRecovery", false) && self.equals_value(
            "citus.use_secondary_nodes",
            "always",
        )) || self.get_bool("simulateReadReplica", false)
    }

    /// Largest accepted write batch.
    pub fn max_write_batch_size(&self) -> (r: i32)
        ensures
            r == spec_get_i32(self@, "maxWriteBatchSize"@, 100000),
    {
        self.get_i32("maxWriteBatchSize", 100000)
    }

    /// Whether the gateway serves reads only.
    pub fn read_only(&self) -> (r: bool)
        ensures
            r == spec_get_bool(self@, "readOnly"@, false),
    {
        self.get_bool("readOnly", false)
    }

    /// Whether responses are still sent while shutting down.
    pub fn send_shutdown_responses(&self) -> (r: bool)
        ensures
            r == spec_get_bool(self@, "SendShutdownResponses"@, false),
    {
        self.get_bool("SendShutdownResponses", false)
    }

    /// Whether the developer explain output is enabled.
    pub fn enable_developer_explain(&self) -> (r: bool)
        ensures
            r == spec_get_bool(self@, "enableDeveloperExplain"@, false),
    {
        self.get_bool("enableDeveloperExplain", false)
    }

    /// Whether transactions may set a snapshot.
    pub fn allow_transaction_snapshot(&self) -> (r: bool)
        ensures
            r == spec_get_bool(self@, "mongoAllowTransactionSnapshot"@, false),
    {
        self.get_bool("mongoAllowTransactionSnapshot", false)
    }

    /// Connection capacity reserved for the gateway's own system traffic,
    /// never granted to tenant pools.  A negative configured budget counts
    /// as no reservation.
    pub fn system_connection_budget(&self) -> (r: usize)
        ensures
            r == spec_system_connection_budget(self@),
    {
        let n = self.get_i32("systemConnectionBudget", 7);
        if n < 0 {
            0
        } else {
            n as usize
        }
    }

    /// The backend's current max-connections setting; a conservative floor
    /// where the backend did not report one.
    pub fn max_connections(&self) -> (r: usize)
        ensures
            r == spec_max_connections(self@),
    {
        let n = self.get_i32("max_connections", -1);
        if n < 0 {
            25
        } else {
            n as usize
        }
    }

    /// Whether stateless cursors expire on their own, shorter idle timeout.
    pub fn enable_stateless_cursor_timeout(&self) -> (r: bool)
        ensures
            r == spec_get_bool(self@, "enableStatelessCursorTimeout"@, false),
    {
        self.get_bool("enableStatelessCursorTimeout", false)
    }

    /// Idle timeout of a stateless cursor, in seconds.
    pub fn stateless_cursor_idle_timeout_sec(&self) -> (r: u64)
        ensures
            r == spec_get_u64(self@, "statelessCursorIdleTimeoutSecs"@, 300),
    {
        self.get_u64("statelessCursorIdleTimeoutSecs", 300)
    }

    /// Default idle timeout of a cursor, in seconds.
    pub fn default_cursor_idle_timeout_sec(&self) -> (r: u64)
        ensures
            r == spec_get_u64(self@, "defaultCursorIdleTimeoutSecs"@, 600),
    {
        self.get_u64("defaultCursorIdleTimeoutSecs", 600)
    }

    /// Replaces the whole snapshot on a successful reload; a failed reload
    /// (`None`) leaves every previously loaded key and value exactly
    /// unchanged.
    pub fn apply_reload(&mut self, outcome: Option<Vec<ConfigEntry>>, now: u64) -> (r: Result<
        (),
        crate::error::GatewayError,
    >)
        ensures
            match outcome {
                Some(snapshot) => final(self)@ == snapshot@ && final(self).spec_last_update_at()
                    == now && r == Ok::<(), crate::error::GatewayError>(()),
                None => final(self)@ == old(self)@ && final(self).spec_last_update_at() == old(
                    self,
                ).spec_last_update_at() && r == Err::<(), crate::error::GatewayError>(
                    crate::error::GatewayError::ConfigReloadFailed,
                ),
            },
    {
        match outcome {
            Some(snapshot) => {
                self.entries = snapshot;
                self.last_update_at = now;
                Ok(())
            },
            None => Err(crate::error::GatewayError::ConfigReloadFailed),
        }
    }
}

} // verus!
