//! Remote commands polled from the router-commands webhook.
//!
//! Commands (derived from configured WAN names):
//! - `restart`
//! - `reset-<iface>` for any WAN
//! - `disable-<iface>` / `enable-<iface>` for ethernet WANs

use vstd::prelude::*;
use crate::config::{disable_script, enable_script, lemma_wan_index_from, wan_index, Config, WanInterface, WanKind};
use crate::text::{is_whitespace, law_trim_leaves_no_outer_whitespace, starts_with, strip_prefix_str, trim, trim_str};

verus! {

/// The command text that is acted upon: the payload's command, trimmed, when
/// anything is left of it.
pub open spec fn spec_normalized(raw: Option<Seq<char>>) -> Option<Seq<char>> {
    match raw {
        Some(c) => if trim(c).len() == 0 {
            None
        } else {
            Some(trim(c))
        },
        None => None,
    }
}

/// The command to act on, from the payload's optional command field.
pub fn normalize_command(raw: Option<&str>) -> (res: Option<String>)
    ensures
        crate::ip_test::opt_view(res) == spec_normalized(
            match raw {
                Some(c) => Some(c@),
                None => None,
            },
        ),
{
    match raw {
        Some(c) => {
            let t = trim_str(c);
            if t.is_empty() {
                None
            } else {
                Some(t.to_owned())
            }
        },
        None => None,
    }
}

/// The command acted upon is never empty and never begins or ends with whitespace.
pub proof fn law_command_is_trimmed(raw: Option<Seq<char>>)
    ensures
        spec_normalized(raw) matches Some(c) ==> c.len() > 0 && !is_whitespace(c[0])
            && !is_whitespace(c.last()),
{
    if let Some(c) = raw {
        law_trim_leaves_no_outer_whitespace(c);
    }
}

/// What a remote command asks for. WANs are given by their position in the
/// configuration.
#[derive(Debug, Clone, Copy, PartialEq, Eq, Structural)]
pub enum RemoteAction {
    /// Reboot the router.
    Restart,
    /// Bounce the WAN with its reset script.
    Reset(usize),
    /// Run the WAN's disable script.
    Disable(usize),
    /// Run the WAN's enable script.
    Enable(usize),
    /// Unknown command, unknown interface, or no script for it: do nothing.
    Ignore,
}

/// The WAN named by what follows `prefix` in `command`.
pub open spec fn named_wan(wans: Seq<WanInterface>, command: Seq<char>, prefix: Seq<char>) -> Option<int> {
    wan_index(wans, command.skip(prefix.len() as int))
}

/// What `command` asks of the configured `wans`.
pub open spec fn spec_dispatch(wans: Seq<WanInterface>, command: Seq<char>) -> RemoteAction {
    if command == "restart"@ {
        RemoteAction::Restart
    } else if starts_with(command, "reset-"@) {
        match named_wan(wans, command, "reset-"@) {
            Some(k) => RemoteAction::Reset(k as usize),
            None => RemoteAction::Ignore,
        }
    } else if starts_with(command, "disable-"@) {
        match named_wan(wans, command, "disable-"@) {
            Some(k) => if disable_script(wans[k].kind) is Some {
                RemoteAction::Disable(k as usize)
            } else {
                RemoteAction::Ignore
            },
            None => RemoteAction::Ignore,
        }
    } else if starts_with(command, "enable-"@) {
        match named_wan(wans, command, "enable-"@) {
            Some(k) => if enable_script(wans[k].kind) is Some {
                RemoteAction::Enable(k as usize)
            } else {
                RemoteAction::Ignore
            },
            None => RemoteAction::Ignore,
        }
    } else {
        RemoteAction::Ignore
    }
}

/// Decide what a remote command asks of this router.
pub fn dispatch_action(config: &Config, command: &str) -> (res: RemoteAction)
    ensures
        res == spec_dispatch(config.wan_interfaces@, command@),
{
    if command.to_owned() == "restart".to_owned() {
        return RemoteAction::Restart;
    }
    if let Some(name) = strip_prefix_str(command, "reset-") {
        return match config.wan_position(name) {
            Some(k) => RemoteAction::Reset(k),
            None => RemoteAction::Ignore,
        };
    }
    if let Some(name) = strip_prefix_str(command, "disable-") {
        return match config.wan_position(name) {
            Some(k) => if config.wan_interfaces[k].kind == WanKind::Ethernet {
                RemoteAction::Disable(k)
            } else {
                RemoteAction::Ignore
            },
            None => RemoteAction::Ignore,
        };
    }
    if let Some(name) = strip_prefix_str(command, "enable-") {
        return match config.wan_position(name) {
            Some(k) => if config.wan_interfaces[k].kind == WanKind::Ethernet {
                RemoteAction::Enable(k)
            } else {
                RemoteAction::Ignore
            },
            None => RemoteAction::Ignore,
        };
    }
    RemoteAction::Ignore
}

/// A remote command only ever acts on a configured WAN named in the command,
/// enables or disables only ethernet WANs, and restarts only on `restart`.
pub proof fn law_dispatch_acts_on_named_wans(wans: Seq<WanInterface>, command: Seq<char>)
    requires
        wans.len() <= usize::MAX,
    ensures
        spec_dispatch(wans, command) == RemoteAction::Restart <==> command == "restart"@,
        spec_dispatch(wans, command) matches RemoteAction::Reset(k) ==> {
            &&& k < wans.len()
            &&& starts_with(command, "reset-"@)
            &&& wans[k as int].name@ == command.skip("reset-"@.len() as int)
        },
        spec_dispatch(wans, command) matches RemoteAction::Disable(k) ==> {
            &&& k < wans.len()
            &&& starts_with(command, "disable-"@)
            &&& wans[k as int].name@ == command.skip("disable-"@.len() as int)
            &&& wans[k as int].kind == WanKind::Ethernet
        },
        spec_dispatch(wans, command) matches RemoteAction::Enable(k) ==> {
            &&& k < wans.len()
            &&& starts_with(command, "enable-"@)
            &&& wans[k as int].name@ == command.skip("enable-"@.len() as int)
            &&& wans[k as int].kind == WanKind::Ethernet
        },
{
    lemma_wan_index_from(wans, command.skip("reset-"@.len() as int), 0);
    lemma_wan_index_from(wans, command.skip("disable-"@.len() as int), 0);
    lemma_wan_index_from(wans, command.skip("enable-"@.len() as int), 0);
}

} // verus!
