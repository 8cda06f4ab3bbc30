//! Shared configuration: the WAN interfaces in preference order, the webhook
//! endpoints, file paths and delays, and the helper scripts that act on a WAN.

use vstd::prelude::*;

verus! {

/// How an interface is brought up/down on EdgeOS.
#[derive(Debug, Clone, Copy, PartialEq, Eq, Structural)]
pub enum WanKind {
    /// Disconnect/connect via op-mode (`reset-pppoe.sh`).
    Pppoe,
    /// Disable/enable via config (`reset-ethernet.sh` / enable / disable).
    Ethernet,
}

/// One WAN interface and the way it is bounced.
#[derive(Debug, Clone, PartialEq, Eq)]
pub struct WanInterface {
    pub name: String,
    pub kind: WanKind,
}

/// Webhook endpoints and their access keys.
#[derive(Debug, Clone, PartialEq, Eq)]
pub struct Webhooks {
    pub reset_logs_url: String,
    pub reset_logs_access_key: String,
    pub router_commands_url: String,
    pub router_commands_access_key: String,
}

/// Delays, in seconds.
#[derive(Debug, Clone, PartialEq, Eq)]
pub struct Timing {
    pub post_reset_conntrack_delay_secs: u64,
    pub between_resets_delay_secs: u64,
    pub reboot_delay_secs: u64,
}

fn default_post_reset_conntrack_delay_secs() -> (res: u64)
    ensures
        res == 15,
{
    15
}

fn default_between_resets_delay_secs() -> (res: u64)
    ensures
        res == 15,
{
    15
}

fn default_reboot_delay_secs() -> (res: u64)
    ensures
        res == 5,
{
    5
}

impl Default for Timing {
    fn default() -> (res: Self)
        ensures
            res.post_reset_conntrack_delay_secs == 15,
            res.between_resets_delay_secs == 15,
            res.reboot_delay_secs == 5,
    {
        Timing {
            post_reset_conntrack_delay_secs: default_post_reset_conntrack_delay_secs(),
            between_resets_delay_secs: default_between_resets_delay_secs(),
            reboot_delay_secs: default_reboot_delay_secs(),
        }
    }
}

/// The whole configuration.
#[derive(Debug, Clone, PartialEq, Eq)]
pub struct Config {
    /// Directory containing helper `.sh` scripts (usually `/config/scripts`).
    pub scripts_dir: String,
    pub log_file: String,
    pub ping_fail_count_file: String,
    pub log_last_upload_file: String,
    pub conntrack_path: String,
    pub runop: String,
    /// LAN host whose NAT translation reveals the public IP in use.
    pub nat_probe_device: String,
    /// WAN interfaces in preference order (highest preference first).
    pub wan_interfaces: Vec<WanInterface>,
    pub webhooks: Webhooks,
    pub timing: Timing,
}

/// Index of the first WAN at or after `i` that is named `name`.
pub open spec fn wan_index_from(wans: Seq<WanInterface>, name: Seq<char>, i: int) -> Option<int>
    decreases wans.len() - i,
{
    if i < 0 || i >= wans.len() {
        None
    } else if wans[i].name@ == name {
        Some(i)
    } else {
        wan_index_from(wans, name, i + 1)
    }
}

/// Index of the first WAN named `name`.
pub open spec fn wan_index(wans: Seq<WanInterface>, name: Seq<char>) -> Option<int> {
    wan_index_from(wans, name, 0)
}

/// `wan_index_from` finds the first match at or after `i`.
pub proof fn lemma_wan_index_from(wans: Seq<WanInterface>, name: Seq<char>, i: int)
    requires
        0 <= i,
    ensures
        wan_index_from(wans, name, i) matches Some(k) ==> {
            &&& i <= k < wans.len()
            &&& wans[k].name@ == name
            &&& forall|j: int| i <= j < k ==> wans[j].name@ != name
        },
        wan_index_from(wans, name, i) is None ==> forall|j: int|
            i <= j < wans.len() ==> wans[j].name@ != name,
    decreases wans.len() - i,
{
    if i < wans.len() && wans[i].name@ != name {
        lemma_wan_index_from(wans, name, i + 1);
    }
}

/// The WANs bounced as PPPoE links, in configuration order.
pub open spec fn pppoe_only(wans: Seq<WanInterface>) -> Seq<WanInterface> {
    wans.filter(|w: WanInterface| w.kind == WanKind::Pppoe)
}

/// Helper script that bounces a WAN of this kind back up.
pub open spec fn reset_script(kind: WanKind) -> Seq<char> {
    match kind {
        WanKind::Pppoe => "reset-pppoe.sh"@,
        WanKind::Ethernet => "reset-ethernet.sh"@,
    }
}

/// Helper script that enables a WAN of this kind, where there is one.
pub open spec fn enable_script(kind: WanKind) -> Option<Seq<char>> {
    match kind {
        WanKind::Ethernet => Some("enable-ethernet.sh"@),
        WanKind::Pppoe => None,
    }
}

/// Helper script that disables a WAN of this kind, where there is one.
pub open spec fn disable_script(kind: WanKind) -> Option<Seq<char>> {
    match kind {
        WanKind::Ethernet => Some("disable-ethernet.sh"@),
        WanKind::Pppoe => None,
    }
}

/// The argument list of every helper script: the interface name alone.
pub open spec fn names_only(args: Seq<String>, wan: WanInterface) -> bool {
    args.len() == 1 && args[0]@ == wan.name@
}

/// Only ethernet WANs can be enabled or disabled, and every ethernet WAN can be.
pub proof fn law_enable_disable_only_ethernet(kind: WanKind)
    ensures
        enable_script(kind) is Some <==> kind == WanKind::Ethernet,
        disable_script(kind) is Some <==> kind == WanKind::Ethernet,
{
}

fn single_name(wan: &WanInterface) -> (res: Vec<String>)
    ensures
        names_only(res@, *wan),
{
    let mut args: Vec<String> = Vec::new();
    args.push(wan.name.clone());
    args
}

/// `Err` with this text when the configuration names no WAN interface.
pub open spec fn empty_wans_message() -> Seq<char> {
    "wan_interfaces must not be empty"@
}

/// Accepts a parsed configuration only if it names at least one WAN interface.
pub fn validated(config: Config) -> (res: Result<Config, String>)
    ensures
        config.wan_interfaces@.len() > 0 ==> res == Ok::<Config, String>(config),
        config.wan_interfaces@.len() == 0 ==> (res matches Err(e) && e@ == empty_wans_message()),
{
    if config.wan_interfaces.len() == 0 {
        Err("wan_interfaces must not be empty".to_owned())
    } else {
        Ok(config)
    }
}

impl Config {
    /// Highest-preference WAN (first in the list).
    pub fn primary_wan(&self) -> (res: Option<&WanInterface>)
        ensures
            self.wan_interfaces@.len() == 0 ==> res is None,
            self.wan_interfaces@.len() > 0 ==> (res matches Some(w) && *w
                == self.wan_interfaces@[0]),
    {
        if self.wan_interfaces.len() == 0 {
            None
        } else {
            Some(&self.wan_interfaces[0])
        }
    }

    /// Position of the first WAN named `name`.
    pub fn wan_position(&self, name: &str) -> (res: Option<usize>)
        ensures
            res is Some <==> wan_index(self.wan_interfaces@, name@) is Some,
            res matches Some(k) ==> wan_index(self.wan_interfaces@, name@) == Some(k as int) && k
                < self.wan_interfaces@.len(),
    {
        proof {
            lemma_wan_index_from(self.wan_interfaces@, name@, 0);
        }
        let target = name.to_owned();
        let mut i: usize = 0;
        while i < self.wan_interfaces.len()
            invariant
                i <= self.wan_interfaces@.len(),
                target@ == name@,
                wan_index(self.wan_interfaces@, name@) == wan_index_from(
                    self.wan_interfaces@,
                    name@,
                    i as int,
                ),
            decreases self.wan_interfaces@.len() - i,
        {
            if self.wan_interfaces[i].name == target {
                return Some(i);
            }
            i = i + 1;
        }
        None
    }

    /// The first WAN named `name`.
    pub fn wan_by_name(&self, name: &str) -> (res: Option<&WanInterface>)
        ensures
            wan_index(self.wan_interfaces@, name@) is None ==> res is None,
            wan_index(self.wan_interfaces@, name@) matches Some(k) ==> (res matches Some(w) && *w
                == self.wan_interfaces@[k]),
    {
        proof {
            lemma_wan_index_from(self.wan_interfaces@, name@, 0);
        }
        match self.wan_position(name) {
            Some(k) => Some(&self.wan_interfaces[k]),
            None => None,
        }
    }

    /// The PPPoE WANs, in preference order.
    pub fn pppoe_wans(&self) -> (res: Vec<WanInterface>)
        ensures
            res@ == pppoe_only(self.wan_interfaces@),
    {
        let mut res: Vec<WanInterface> = Vec::new();
        let mut i: usize = 0;
        while i < self.wan_interfaces.len()
            invariant
                i <= self.wan_interfaces@.len(),
                res@ == pppoe_only(self.wan_interfaces@.take(i as int)),
            decreases self.wan_interfaces@.len() - i,
        {
            let w = &self.wan_interfaces[i];
            proof {
                let pred = |x: WanInterface| x.kind == WanKind::Pppoe;
                assert(self.wan_interfaces@.take(i + 1) =~= self.wan_interfaces@.take(
                    i as int,
                ).push(*w));
                self.wan_interfaces@.take(i as int).lemma_filter_push(*w, pred);
            }
            if w.kind == WanKind::Pppoe {
                res.push(WanInterface { name: w.name.clone(), kind: w.kind });
            }
            i = i + 1;
        }
        assert(self.wan_interfaces@.take(i as int) =~= self.wan_interfaces@);
        res
    }

    /// Script + args to bounce an interface back up.
    pub fn reset_command(&self, wan: &WanInterface) -> (res: (&'static str, Vec<String>))
        ensures
            res.0@ == reset_script(wan.kind),
            names_only(res.1@, *wan),
    {
        match wan.kind {
            WanKind::Pppoe => ("reset-pppoe.sh", single_name(wan)),
            WanKind::Ethernet => ("reset-ethernet.sh", single_name(wan)),
        }
    }

    /// Script + args to enable an interface; only ethernet WANs have one.
    pub fn enable_command(&self, wan: &WanInterface) -> (res: Option<(&'static str, Vec<String>)>)
        ensures
            enable_script(wan.kind) is None ==> res is None,
            enable_script(wan.kind) matches Some(s) ==> (res matches Some(c) && c.0@ == s
                && names_only(c.1@, *wan)),
    {
        match wan.kind {
            WanKind::Ethernet => Some(("enable-ethernet.sh", single_name(wan))),
            WanKind::Pppoe => None,
        }
    }

    /// Script + args to disable an interface; only ethernet WANs have one.
    pub fn disable_command(&self, wan: &WanInterface) -> (res: Option<(&'static str, Vec<String>)>)
        ensures
            disable_script(wan.kind) is None ==> res is None,
            disable_script(wan.kind) matches Some(s) ==> (res matches Some(c) && c.0@ == s
                && names_only(c.1@, *wan)),
    {
        match wan.kind {
            WanKind::Ethernet => Some(("disable-ethernet.sh", single_name(wan))),
            WanKind::Pppoe => None,
        }
    }
}

} // verus!
