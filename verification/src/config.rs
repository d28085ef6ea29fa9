//! Monitor configuration and the round-robin rotation through the targets.
use vstd::prelude::*;

use vstd::string::StringExecFns;

use crate::next_index;

verus! {

/// Where the monitor looks and where it keeps its logs.
///
/// `targets` is the ring of outside addresses that are probed in turn;
/// `index` says which of them is the current one.
pub struct Config {
    pub router_ip: String,
    pub secondary_internal_target: Option<String>,
    pub targets: Vec<String>,
    /// Position of the current target in `targets`.
    pub index: usize,
    /// Pause between two probes while the connection is up, in milliseconds.
    pub interval_normal: u64,
    /// Ping timeout (and pause) while an outage is being handled, in milliseconds.
    pub interval_recovery: u64,
    pub log_dir_path: String,
}

/// Pause between two probes while the connection is up, in milliseconds.
pub const NORMAL_INTERVAL_MS: u64 = 1000;

/// Ping timeout while an outage is being handled, in milliseconds.
pub const RECOVERY_INTERVAL_MS: u64 = 333;

/// The position of `cursor` after `steps` rotations through a ring of `len` targets.
pub open spec fn rotated(cursor: int, len: int, steps: nat) -> int
    decreases steps,
{
    if steps == 0 {
        cursor
    } else {
        (rotated(cursor, len, (steps - 1) as nat) + 1) % len
    }
}

impl Config {
    /// The cursor points into a ring that is not empty.
    pub open spec fn wf(&self) -> bool {
        0 <= self.index < self.targets@.len()
    }

    /// The current target.
    pub open spec fn current_spec(&self) -> Seq<char> {
        self.targets@[self.index as int]@
    }

    /// The target after the current one, wrapping around.
    pub open spec fn next_spec(&self) -> Seq<char> {
        self.targets@[(self.index + 1) % (self.targets@.len() as int)]@
    }

    /// A configuration with the given addresses, the default intervals and
    /// the first target as the current one.
    pub fn new(
        router_ip: String,
        secondary_internal_target: Option<String>,
        targets: Vec<String>,
        log_dir_path: String,
    ) -> (config: Self)
        ensures
            config.router_ip == router_ip,
            config.secondary_internal_target == secondary_internal_target,
            config.targets@ == targets@,
            config.log_dir_path == log_dir_path,
            config.interval_normal == NORMAL_INTERVAL_MS,
            config.interval_recovery == RECOVERY_INTERVAL_MS,
            config.index == 0,
            config.wf() == (targets@.len() > 0),
    {
        Config {
            router_ip,
            secondary_internal_target,
            targets,
            index: 0,
            interval_normal: NORMAL_INTERVAL_MS,
            interval_recovery: RECOVERY_INTERVAL_MS,
            log_dir_path,
        }
    }

    /// The address that is probed now.
    pub fn current_target(&self) -> (target: String)
        requires
            self.wf(),
        ensures
            target@ == self.current_spec(),
    {
        self.targets[self.index].clone()
    }

    /// The address that comes after the current one in the ring.
    pub fn next_target(&self) -> (target: String)
        requires
            self.wf(),
        ensures
            target@ == self.next_spec(),
    {
        self.targets[next_index(self.index, self.targets.len())].clone()
    }

    /// Moves the cursor on to the next target, wrapping around.
    pub fn iter_targets(&mut self)
        requires
            old(self).wf(),
        ensures
            final(self).wf(),
            final(self).index == (old(self).index + 1) % (old(self).targets@.len() as int),
            final(self).targets == old(self).targets,
            final(self).router_ip == old(self).router_ip,
            final(self).secondary_internal_target == old(self).secondary_internal_target,
            final(self).interval_normal == old(self).interval_normal,
            final(self).interval_recovery == old(self).interval_recovery,
            final(self).log_dir_path == old(self).log_dir_path,
    {
        self.index = next_index(self.index, self.targets.len());
    }
}

/// After one rotation the current target is the one that was next before.
pub proof fn lemma_rotation_reaches_next(before: Config, after: Config)
    requires
        before.wf(),
        after.targets == before.targets,
        after.index == (before.index + 1) % (before.targets@.len() as int),
    ensures
        after.wf(),
        after.current_spec() == before.next_spec(),
{
}

/// Rotating `steps` times moves the cursor `steps` places on, modulo the ring size.
pub proof fn lemma_rotated_is_offset(cursor: int, len: int, steps: nat)
    requires
        0 <= cursor < len,
    ensures
        rotated(cursor, len, steps) == (cursor + steps) % len,
    decreases steps,
{
    if steps == 0 {
        vstd::arithmetic::div_mod::lemma_small_mod(cursor as nat, len as nat);
    } else {
        lemma_rotated_is_offset(cursor, len, (steps - 1) as nat);
        vstd::arithmetic::div_mod::lemma_add_mod_noop_right(1, cursor + steps - 1, len);
    }
}

/// The number of rotations that take the cursor from `from` to `to` in a ring of `len` targets.
pub open spec fn steps_between(from: int, to: int, len: int) -> nat {
    if to >= from { (to - from) as nat } else { (to - from + len) as nat }
}

/// Round robin: after exactly one full turn the cursor is back where it started.
pub proof fn lemma_full_turn(cursor: int, len: int)
    requires
        0 <= cursor < len,
    ensures
        rotated(cursor, len, len as nat) == cursor,
{
    lemma_rotated_is_offset(cursor, len, len as nat);
    vstd::arithmetic::div_mod::lemma_mod_add_multiples_vanish(cursor, len);
    vstd::arithmetic::div_mod::lemma_small_mod(cursor as nat, len as nat);
}

/// Round robin: every target becomes the current one within less than a full turn.
pub proof fn lemma_every_target_is_reached(cursor: int, len: int, target: int)
    requires
        0 <= cursor < len,
        0 <= target < len,
    ensures
        steps_between(cursor, target, len) < len,
        rotated(cursor, len, steps_between(cursor, target, len)) == target,
{
    let k = steps_between(cursor, target, len);
    lemma_rotated_is_offset(cursor, len, k);
    if target >= cursor {
        vstd::arithmetic::div_mod::lemma_small_mod(target as nat, len as nat);
    } else {
        vstd::arithmetic::div_mod::lemma_mod_add_multiples_vanish(target, len);
        vstd::arithmetic::div_mod::lemma_small_mod(target as nat, len as nat);
    }
}

/// Settings as read from the configuration file; any of them may be missing.
pub struct Settings {
    pub router_ip: Option<String>,
    pub secondary_internal_target: Option<String>,
    pub targets: Option<Vec<String>>,
    pub log_dir_path: Option<String>,
}

/// Settings given by the environment; where given, they win over the file.
pub struct Overrides {
    pub router_ip: Option<String>,
    pub secondary_internal_target: Option<String>,
    pub log_dir_path: Option<String>,
}

/// A setting that the configuration cannot do without is missing.
#[derive(PartialEq, Eq, Structural, Clone, Copy, Debug)]
pub enum ConfigError {
    MissingRouterIp,
    MissingLogDirPath,
    MissingTargets,
}

/// The override where there is one, else the file's setting.
pub open spec fn chosen(over: Option<String>, file: Option<String>) -> Option<String> {
    if over is Some { over } else { file }
}

fn choose_setting(over: Option<String>, file: Option<String>) -> (setting: Option<String>)
    ensures
        setting == chosen(over, file),
{
    match over {
        Some(value) => Some(value),
        None => file,
    }
}

impl Config {
    /// The configuration from the environment's overrides and the file's
    /// settings. The router address and the log directory come from the
    /// environment where it gives them, else from the file; the secondary
    /// internal target likewise, and may be missing; the targets come from
    /// the file. A missing router address, log directory or target list is
    /// an error, reported in that order.
    pub fn from_settings(overrides: Overrides, file: Settings) -> (config: Result<Config, ConfigError>)
        ensures
            chosen(overrides.router_ip, file.router_ip) is None ==> config == Err::<Config, ConfigError>(
                ConfigError::MissingRouterIp,
            ),
            chosen(overrides.router_ip, file.router_ip) is Some && chosen(overrides.log_dir_path, file.log_dir_path) is None
                ==> config == Err::<Config, ConfigError>(ConfigError::MissingLogDirPath),
            chosen(overrides.router_ip, file.router_ip) is Some && chosen(overrides.log_dir_path, file.log_dir_path) is Some
                && file.targets is None ==> config == Err::<Config, ConfigError>(ConfigError::MissingTargets),
            config is Ok <==> (chosen(overrides.router_ip, file.router_ip) is Some && chosen(
                overrides.log_dir_path,
                file.log_dir_path,
            ) is Some && file.targets is Some),
            config is Ok ==> ({
                let c = config->Ok_0;
                &&& Some(c.router_ip) == chosen(overrides.router_ip, file.router_ip)
                &&& Some(c.log_dir_path) == chosen(overrides.log_dir_path, file.log_dir_path)
                &&& c.secondary_internal_target == chosen(
                    overrides.secondary_internal_target,
                    file.secondary_internal_target,
                )
                &&& c.targets@ == file.targets->0@
                &&& c.index == 0
                &&& c.interval_normal == NORMAL_INTERVAL_MS
                &&& c.interval_recovery == RECOVERY_INTERVAL_MS
            }),
    {
        let router_ip = match choose_setting(overrides.router_ip, file.router_ip) {
            Some(value) => value,
            None => return Err(ConfigError::MissingRouterIp),
        };
        let log_dir_path = match choose_setting(overrides.log_dir_path, file.log_dir_path) {
            Some(value) => value,
            None => return Err(ConfigError::MissingLogDirPath),
        };
        let targets = match file.targets {
            Some(value) => value,
            None => return Err(ConfigError::MissingTargets),
        };
        let secondary_internal_target = choose_setting(
            overrides.secondary_internal_target,
            file.secondary_internal_target,
        );
        Ok(Config::new(router_ip, secondary_internal_target, targets, log_dir_path))
    }
}

proof fn lemma_mod_of_small_sum(x: int, len: int)
    requires
        0 <= x < 2 * len,
    ensures
        x % len == if x < len { x } else { x - len },
{
    if x < len {
        vstd::arithmetic::div_mod::lemma_small_mod(x as nat, len as nat);
    } else {
        vstd::arithmetic::div_mod::lemma_mod_add_multiples_vanish(x - len, len);
        vstd::arithmetic::div_mod::lemma_small_mod((x - len) as nat, len as nat);
    }
}

/// Round robin: within one full turn no target is current twice.
pub proof fn lemma_turn_visits_each_once(cursor: int, len: int, j: nat, k: nat)
    requires
        0 <= cursor < len,
        j < k < len,
    ensures
        rotated(cursor, len, j) != rotated(cursor, len, k),
{
    lemma_rotated_is_offset(cursor, len, j);
    lemma_rotated_is_offset(cursor, len, k);
    lemma_mod_of_small_sum(cursor + j, len);
    lemma_mod_of_small_sum(cursor + k, len);
}

/// Each configuration in `run` follows the one before it by one rotation,
/// as `iter_targets` makes it.
pub open spec fn is_rotation_run(run: Seq<Config>) -> bool {
    forall|k: int|
        0 <= k < run.len() - 1 ==> {
            &&& (#[trigger] run[k + 1]).targets == run[k].targets
            &&& run[k + 1].index == (run[k].index + 1) % (run[k].targets@.len() as int)
        }
}

/// A run of calls of `iter_targets` from a well-formed configuration is the
/// rotation: after `k` calls the cursor has moved `k` places on.
pub proof fn lemma_run_follows_rotation(run: Seq<Config>)
    requires
        run.len() > 0,
        run[0].wf(),
        is_rotation_run(run),
    ensures
        forall|k: int|
            0 <= k < run.len() ==> {
                &&& (#[trigger] run[k]).wf()
                &&& run[k].targets == run[0].targets
                &&& run[k].index == rotated(run[0].index as int, run[0].targets@.len() as int, k as nat)
            },
    decreases run.len(),
{
    if run.len() > 1 {
        let shorter = run.drop_last();
        assert forall|k: int| 0 <= k < shorter.len() - 1 implies {
            &&& (#[trigger] shorter[k + 1]).targets == shorter[k].targets
            &&& shorter[k + 1].index == (shorter[k].index + 1) % (shorter[k].targets@.len() as int)
        } by {
            assert(shorter[k + 1] == run[k + 1]);
            assert(shorter[k] == run[k]);
        }
        lemma_run_follows_rotation(shorter);
        assert forall|k: int| 0 <= k < run.len() implies {
            &&& (#[trigger] run[k]).wf()
            &&& run[k].targets == run[0].targets
            &&& run[k].index == rotated(run[0].index as int, run[0].targets@.len() as int, k as nat)
        } by {
            if k < run.len() - 1 {
                assert(shorter[k] == run[k]);
            } else {
                let p = k - 1;
                assert(shorter[p] == run[p]);
                assert(run[p + 1] == run[k]);
            }
        }
    }
}

/// The router address written into a new configuration file.
pub open spec fn default_router_ip() -> Seq<char> {
    "192.168.178.1"@
}

/// The secondary internal target written into a new configuration file.
pub open spec fn default_secondary_internal_target() -> Seq<char> {
    "192.168.178.2"@
}

/// The log directory written into a new configuration file.
pub open spec fn default_log_dir_path() -> Seq<char> {
    "./shamash-logs"@
}

/// High availability targets of ten providers, ordered so that no two
/// targets in a row, counting the last and the first as in a row, belong to
/// the same provider.
pub open spec fn default_targets() -> Seq<Seq<char>> {
    seq![
        "1.1.1.1"@, "149.112.112.112"@, "8.8.4.4"@, "94.140.14.14"@, "1.0.0.1"@,
        "208.67.220.220"@, "8.8.8.8"@, "94.140.15.15"@, "9.9.9.9"@, "208.67.222.222"@,
        "4.2.2.1"@, "64.6.64.6"@, "4.2.2.2"@, "64.6.65.6"@, "8.26.56.26"@,
        "76.76.10.0"@, "84.200.69.80"@, "8.20.247.20"@, "84.200.70.40"@, "76.76.2.0"@,
    ]
}

/// The providers of the default targets.
#[derive(PartialEq, Eq, Structural, Clone, Copy, Debug)]
pub enum Provider {
    Cloudflare,
    Quad9,
    Google,
    AdGuard,
    OpenDns,
    Level3,
    Verisign,
    Comodo,
    ControlD,
    DnsWatch,
}

/// The provider of each default target, by position.
pub open spec fn default_providers() -> Seq<Provider> {
    seq![
        Provider::Cloudflare, Provider::Quad9, Provider::Google, Provider::AdGuard, Provider::Cloudflare,
        Provider::OpenDns, Provider::Google, Provider::AdGuard, Provider::Quad9, Provider::OpenDns,
        Provider::Level3, Provider::Verisign, Provider::Level3, Provider::Verisign, Provider::Comodo,
        Provider::ControlD, Provider::DnsWatch, Provider::Comodo, Provider::DnsWatch, Provider::ControlD,
    ]
}

/// In the default ring of targets, the target after any target (wrapping
/// around) belongs to another provider.
pub proof fn lemma_default_neighbours_differ(i: int)
    requires
        0 <= i < default_targets().len(),
    ensures
        default_providers().len() == default_targets().len(),
        default_providers()[i] != default_providers()[(i + 1) % (default_targets().len() as int)],
{
    let p = default_providers();
    assert(p.len() == 20);
    assert(p[0] != p[1] && p[1] != p[2] && p[2] != p[3] && p[3] != p[4] && p[4] != p[5]);
    assert(p[5] != p[6] && p[6] != p[7] && p[7] != p[8] && p[8] != p[9] && p[9] != p[10]);
    assert(p[10] != p[11] && p[11] != p[12] && p[12] != p[13] && p[13] != p[14] && p[14] != p[15]);
    assert(p[15] != p[16] && p[16] != p[17] && p[17] != p[18] && p[18] != p[19] && p[19] != p[0]);
}

/// The settings written into a new configuration file.
pub fn default_settings() -> (settings: Settings)
    ensures
        settings.router_ip is Some && settings.router_ip->0@ == default_router_ip(),
        settings.secondary_internal_target is Some && settings.secondary_internal_target->0@
            == default_secondary_internal_target(),
        settings.log_dir_path is Some && settings.log_dir_path->0@ == default_log_dir_path(),
        settings.targets is Some && settings.targets->0@.map_values(|t: String| t@) == default_targets(),
{
    let mut targets: Vec<String> = Vec::new();
    targets.push(String::from_str("1.1.1.1"));
    targets.push(String::from_str("149.112.112.112"));
    targets.push(String::from_str("8.8.4.4"));
    targets.push(String::from_str("94.140.14.14"));
    targets.push(String::from_str("1.0.0.1"));
    targets.push(String::from_str("208.67.220.220"));
    targets.push(String::from_str("8.8.8.8"));
    targets.push(String::from_str("94.140.15.15"));
    targets.push(String::from_str("9.9.9.9"));
    targets.push(String::from_str("208.67.222.222"));
    targets.push(String::from_str("4.2.2.1"));
    targets.push(String::from_str("64.6.64.6"));
    targets.push(String::from_str("4.2.2.2"));
    targets.push(String::from_str("64.6.65.6"));
    targets.push(String::from_str("8.26.56.26"));
    targets.push(String::from_str("76.76.10.0"));
    targets.push(String::from_str("84.200.69.80"));
    targets.push(String::from_str("8.20.247.20"));
    targets.push(String::from_str("84.200.70.40"));
    targets.push(String::from_str("76.76.2.0"));
    assert(targets@.map_values(|t: String| t@) =~= default_targets());
    Settings {
        router_ip: Some(String::from_str("192.168.178.1")),
        secondary_internal_target: Some(String::from_str("192.168.178.2")),
        targets: Some(targets),
        log_dir_path: Some(String::from_str("./shamash-logs")),
    }
}

} // verus!
