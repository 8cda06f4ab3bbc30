//! Decisions of the periodic WAN repair run.
//!
//! A run checks, in order: WAN preference (traffic on a lower-preference link
//! while a better one is up), repeated ping failures, and PPPoE links without
//! an address. Each check is a function from what was observed to what to do.

use vstd::prelude::*;
use crate::config::{pppoe_only, wan_index, lemma_wan_index_from, Config, WanInterface, WanKind};
use crate::ip_test::{find_ip, ip_of, spec_upgrade, law_upgrade_is_best_better_link, IpTestResult};
use crate::text::{contains, contains_str, join, lines, lines_of, parse_u32, parse_unsigned, trim, trim_str};

verus! {

/// What a run does about the ping check.
#[derive(Debug, Clone, Copy, PartialEq, Eq, Structural)]
pub enum PingAction {
    /// Ping works, or has not failed yet.
    NoAction,
    /// One or two failures in a row: only note them in the log.
    LogOnly,
    /// Three to eight failures in a row: reset all PPPoE WANs.
    ResetAllPppoe,
    /// Nine or more failures in a row: reboot the router.
    Reboot,
}

/// The consecutive-failure count kept between runs, and what to do now.
#[derive(Debug, Clone, Copy, PartialEq, Eq, Structural)]
pub struct PingStep {
    pub count: u32,
    pub action: PingAction,
}

/// The failure count after one ping attempt.
pub open spec fn next_ping_count(previous: nat, ping_ok: bool) -> nat {
    if ping_ok {
        0
    } else {
        previous + 1
    }
}

/// What to do once `count` consecutive pings have failed.
pub open spec fn ping_action_for(count: nat) -> PingAction {
    if count == 0 {
        PingAction::NoAction
    } else if count <= 2 {
        PingAction::LogOnly
    } else if count <= 8 {
        PingAction::ResetAllPppoe
    } else {
        PingAction::Reboot
    }
}

/// Whether a ping action ends the run (no later check is made).
pub open spec fn ends_run(action: PingAction) -> bool {
    action == PingAction::ResetAllPppoe || action == PingAction::Reboot
}

impl PingAction {
    /// The run stops after this action.
    pub fn ends_checks(&self) -> (res: bool)
        ensures
            res == ends_run(*self),
    {
        match self {
            PingAction::ResetAllPppoe | PingAction::Reboot => true,
            _ => false,
        }
    }
}

/// One ping check: the new failure count and the action it calls for.
pub fn ping_failure_step(previous: u32, ping_ok: bool) -> (res: PingStep)
    requires
        ping_ok || previous < u32::MAX,
    ensures
        res.count == next_ping_count(previous as nat, ping_ok),
        res.action == ping_action_for(res.count as nat),
{
    let count: u32 = if ping_ok {
        0
    } else {
        previous + 1
    };
    let action = if count == 0 {
        PingAction::NoAction
    } else if count <= 2 {
        PingAction::LogOnly
    } else if count <= 8 {
        PingAction::ResetAllPppoe
    } else {
        PingAction::Reboot
    };
    PingStep { count, action }
}

/// The count after a series of ping outcomes, starting from `start`.
pub open spec fn count_after(start: nat, outcomes: Seq<bool>) -> nat
    decreases outcomes.len(),
{
    if outcomes.len() == 0 {
        start
    } else {
        next_ping_count(count_after(start, outcomes.drop_last()), outcomes.last())
    }
}

/// The number of failed pings at the end of `outcomes`.
pub open spec fn trailing_failures(outcomes: Seq<bool>) -> nat
    decreases outcomes.len(),
{
    if outcomes.len() == 0 || outcomes.last() {
        0
    } else {
        trailing_failures(outcomes.drop_last()) + 1
    }
}

/// From a clean state, the stored count is the number of failures since the
/// last successful ping.
pub proof fn law_count_is_failures_since_success(outcomes: Seq<bool>)
    ensures
        count_after(0, outcomes) == trailing_failures(outcomes),
    decreases outcomes.len(),
{
    if outcomes.len() > 0 {
        law_count_is_failures_since_success(outcomes.drop_last());
    }
}

/// `trailing_failures` counts a final run of failures.
proof fn lemma_trailing_failures(outcomes: Seq<bool>)
    ensures
        trailing_failures(outcomes) <= outcomes.len(),
        forall|i: int|
            outcomes.len() - trailing_failures(outcomes) <= i < outcomes.len() ==> !#[trigger] outcomes[i],
    decreases outcomes.len(),
{
    if outcomes.len() > 0 && !outcomes.last() {
        let rest = outcomes.drop_last();
        lemma_trailing_failures(rest);
        assert forall|i: int|
            outcomes.len() - trailing_failures(outcomes) <= i < outcomes.len() implies !#[trigger] outcomes[i] by {
            if i < outcomes.len() - 1 {
                assert(outcomes[i] == rest[i]);
            }
        }
    }
}

/// From a clean state the router is rebooted only after at least nine pings in
/// a row have failed, and PPPoE links are reset only after at least three.
pub proof fn law_escalation_needs_consecutive_failures(outcomes: Seq<bool>)
    ensures
        ping_action_for(count_after(0, outcomes)) == PingAction::Reboot ==> outcomes.len() >= 9
            && forall|i: int| outcomes.len() - 9 <= i < outcomes.len() ==> !#[trigger] outcomes[i],
        ping_action_for(count_after(0, outcomes)) == PingAction::ResetAllPppoe ==> outcomes.len()
            >= 3 && forall|i: int| outcomes.len() - 3 <= i < outcomes.len() ==> !#[trigger] outcomes[i],
{
    law_count_is_failures_since_success(outcomes);
    lemma_trailing_failures(outcomes);
}

/// A successful ping always clears the count and calls for nothing, whatever came before.
pub proof fn law_success_clears(start: nat, outcomes: Seq<bool>)
    ensures
        count_after(start, outcomes.push(true)) == 0,
        ping_action_for(count_after(start, outcomes.push(true))) == PingAction::NoAction,
{
    assert(outcomes.push(true).drop_last() =~= outcomes);
}

/// Each further failure past the eighth reboots again.
pub proof fn law_reboot_persists(start: nat, outcomes: Seq<bool>)
    requires
        ping_action_for(count_after(start, outcomes)) == PingAction::Reboot,
    ensures
        ping_action_for(count_after(start, outcomes.push(false))) == PingAction::Reboot,
{
    assert(outcomes.push(false).drop_last() =~= outcomes);
}

/// The status line is written at 02:02-02:08 and 14:02-14:08.
pub open spec fn spec_in_status_window(hour: u32, minute: u32) -> bool {
    (hour == 2 || hour == 14) && 2 <= minute <= 8
}

/// Whether the unconditional status line is due at this local time.
pub fn in_status_window(hour: u32, minute: u32) -> (res: bool)
    ensures
        res == spec_in_status_window(hour, minute),
{
    (hour == 2 || hour == 14) && 2 <= minute && minute <= 8
}

/// `name: address` for one interface (empty address when it has none).
pub open spec fn entry_text(entry: (String, Option<String>)) -> Seq<char> {
    entry.0@ + ": "@ + match entry.1 {
        Some(ip) => ip@,
        None => Seq::empty(),
    }
}

/// The status text of each interface, in order.
pub open spec fn entry_texts(entries: Seq<(String, Option<String>)>) -> Seq<Seq<char>> {
    Seq::new(entries.len(), |i: int| entry_text(entries[i]))
}

/// The interfaces' status texts, separated by `", "`.
pub open spec fn spec_status_summary(entries: Seq<(String, Option<String>)>) -> Seq<char> {
    join(entry_texts(entries), ", "@)
}

/// The summary of interface addresses written in the status line.
pub fn status_summary(entries: &[(String, Option<String>)]) -> (res: String)
    ensures
        res@ == spec_status_summary(entries@),
{
    let mut res = String::new();
    let mut i: usize = 0;
    while i < entries.len()
        invariant
            i <= entries@.len(),
            res@ == join(entry_texts(entries@).take(i as int), ", "@),
        decreases entries@.len() - i,
    {
        let ghost before = res@;
        if i > 0 {
            res.append(", ");
        }
        res.append(entries[i].0.as_str());
        res.append(": ");
        match &entries[i].1 {
            Some(ip) => res.append(ip.as_str()),
            None => {},
        }
        proof {
            let t = entry_texts(entries@);
            assert(t.take(i + 1).drop_last() =~= t.take(i as int));
            assert(t.take(i + 1).last() == entry_text(entries@[i as int]));
            if i == 0 {
                assert(t.take(1) =~= seq![t[0]]);
            }
            assert(res@ =~= join(t.take(i + 1), ", "@));
        }
        i = i + 1;
    }
    proof {
        assert(entry_texts(entries@).take(i as int) =~= entry_texts(entries@));
    }
    res
}

/// PPPoE WANs in the order they are reset: lowest preference first.
pub fn pppoe_reset_order(config: &Config) -> (res: Vec<WanInterface>)
    ensures
        res@ == pppoe_only(config.wan_interfaces@).reverse(),
{
    let p = config.pppoe_wans();
    let mut res: Vec<WanInterface> = Vec::new();
    let mut i: usize = 0;
    while i < p.len()
        invariant
            i <= p@.len(),
            res@.len() == i,
            forall|k: int| 0 <= k < i ==> #[trigger] res@[k] == p@[p@.len() - 1 - k],
        decreases p@.len() - i,
    {
        let w = &p[p.len() - 1 - i];
        res.push(WanInterface { name: w.name.clone(), kind: w.kind });
        i = i + 1;
    }
    assert(res@ =~= p@.reverse());
    res
}

/// What a run does about PPPoE links without an address.
#[derive(Debug, Clone, Copy, PartialEq, Eq, Structural)]
pub enum MissingIpAction {
    NoAction,
    /// No PPPoE WAN has an address: reset them all.
    ResetAllPppoe,
    /// The primary WAN is PPPoE and has no address: reset it.
    ResetPrimary,
}

/// A PPPoE link counts as down when its first entry has no address, or when it
/// has no entry.
pub open spec fn pppoe_down(entries: Seq<(String, Option<String>)>, name: Seq<char>) -> bool {
    ip_of(entries, name) is None
}

/// Every PPPoE WAN is down.
pub open spec fn all_pppoe_down(wans: Seq<WanInterface>, entries: Seq<(String, Option<String>)>) -> bool {
    forall|i: int| 0 <= i < pppoe_only(wans).len() ==> pppoe_down(entries, #[trigger] pppoe_only(wans)[i].name@)
}

/// The decision about missing addresses.
pub open spec fn spec_missing_ip_action(
    wans: Seq<WanInterface>,
    entries: Seq<(String, Option<String>)>,
) -> MissingIpAction {
    if pppoe_only(wans).len() == 0 {
        MissingIpAction::NoAction
    } else if all_pppoe_down(wans, entries) {
        MissingIpAction::ResetAllPppoe
    } else if wans.len() > 0 && wans[0].kind == WanKind::Pppoe && pppoe_down(entries, wans[0].name@) {
        MissingIpAction::ResetPrimary
    } else {
        MissingIpAction::NoAction
    }
}

/// What to do about PPPoE WANs without an address.
pub fn missing_ip_action(config: &Config, entries: &[(String, Option<String>)]) -> (res:
    MissingIpAction)
    ensures
        res == spec_missing_ip_action(config.wan_interfaces@, entries@),
{
    let p = config.pppoe_wans();
    if p.len() == 0 {
        return MissingIpAction::NoAction;
    }
    let mut all_down = true;
    let mut i: usize = 0;
    while i < p.len()
        invariant
            i <= p@.len(),
            p@ == pppoe_only(config.wan_interfaces@),
            all_down <==> forall|j: int| 0 <= j < i ==> pppoe_down(entries@, #[trigger] p@[j].name@),
        decreases p@.len() - i,
    {
        if find_ip(entries, p[i].name.as_str()).is_some() {
            all_down = false;
        }
        i = i + 1;
    }
    if all_down {
        return MissingIpAction::ResetAllPppoe;
    }
    match config.primary_wan() {
        Some(primary) => {
            if primary.kind == WanKind::Pppoe && find_ip(entries, primary.name.as_str()).is_none() {
                MissingIpAction::ResetPrimary
            } else {
                MissingIpAction::NoAction
            }
        },
        None => MissingIpAction::NoAction,
    }
}

/// All PPPoE links are reset only when each one is down, and the primary link
/// alone only when it is a PPPoE link that is down while another PPPoE link is up.
pub proof fn law_missing_ip_resets_only_down_links(
    wans: Seq<WanInterface>,
    entries: Seq<(String, Option<String>)>,
)
    ensures
        spec_missing_ip_action(wans, entries) == MissingIpAction::ResetAllPppoe ==> {
            &&& pppoe_only(wans).len() > 0
            &&& forall|i: int|
                0 <= i < pppoe_only(wans).len() ==> pppoe_down(entries, #[trigger] pppoe_only(wans)[i].name@)
        },
        spec_missing_ip_action(wans, entries) == MissingIpAction::ResetPrimary ==> {
            &&& wans.len() > 0
            &&& wans[0].kind == WanKind::Pppoe
            &&& pppoe_down(entries, wans[0].name@)
            &&& exists|i: int|
                0 <= i < pppoe_only(wans).len() && !pppoe_down(entries, #[trigger] pppoe_only(wans)[i].name@)
        },
{
}

/// The WAN to reset so that traffic moves to a better link, as configured.
pub open spec fn spec_preference_target(config_wans: Seq<WanInterface>, result: IpTestResult) -> Option<
    int,
> {
    match spec_upgrade(result, config_wans) {
        Some(n) => wan_index(config_wans, n),
        None => None,
    }
}

/// The configured WAN the preference check resets, if any.
pub fn wan_preference_target<'a>(config: &'a Config, result: &IpTestResult) -> (res: Option<
    &'a WanInterface,
>)
    ensures
        spec_preference_target(config.wan_interfaces@, *result) is None ==> res is None,
        spec_preference_target(config.wan_interfaces@, *result) matches Some(k) ==> (res matches Some(
            w,
        ) && *w == config.wan_interfaces@[k]),
{
    match result.preferred_upgrade_reset(config.wan_interfaces.as_slice()) {
        Some(name) => config.wan_by_name(name.as_str()),
        None => None,
    }
}

/// The preference check resets only a configured WAN ranked strictly above the
/// link in use, and only one that is up.
pub proof fn law_preference_target_is_better_and_up(config_wans: Seq<WanInterface>, result: IpTestResult)
    ensures
        spec_preference_target(config_wans, result) matches Some(k) ==> {
            &&& result matches IpTestResult::Matched { index, interfaces, .. }
            &&& 0 <= k < index
            &&& k < config_wans.len()
            &&& ip_of(interfaces.wans@, config_wans[k].name@) is Some
        },
{
    law_upgrade_is_best_better_link(result, config_wans);
    if let Some(n) = spec_upgrade(result, config_wans) {
        lemma_wan_index_from(config_wans, n, 0);
        let k = choose|k: int|
            {
                &&& result matches IpTestResult::Matched { index, .. }
                &&& 0 <= k < index
                &&& k < config_wans.len()
                &&& #[trigger] config_wans[k].name@ == n
                &&& ip_of(crate::ip_test::result_interfaces(result).wans@, n) is Some
                &&& forall|j: int|
                    0 <= j < k ==> ip_of(
                        crate::ip_test::result_interfaces(result).wans@,
                        #[trigger] config_wans[j].name@,
                    ) is None
            };
        assert(config_wans[k].name@ == n);
    }
}

/// What one line of `ip addr show` output says for the address check: stop with
/// the trimmed line when it mentions `inet `.
pub open spec fn inet_text_from(ls: Seq<Seq<char>>, i: int) -> Option<Seq<char>>
    decreases ls.len() - i,
{
    if i < 0 || i >= ls.len() {
        None
    } else if contains(ls[i], "inet "@) {
        Some(trim(ls[i]))
    } else {
        inet_text_from(ls, i + 1)
    }
}

/// The first line of `ip addr show` output that mentions `inet `, trimmed.
pub fn first_inet_line(output: &str) -> (res: Option<String>)
    ensures
        crate::ip_test::opt_view(res) == inet_text_from(lines(output@), 0),
{
    let ls = lines_of(output);
    let mut i: usize = 0;
    while i < ls.len()
        invariant
            i <= ls@.len(),
            ls.deep_view() == lines(output@),
            inet_text_from(lines(output@), 0) == inet_text_from(lines(output@), i as int),
        decreases ls@.len() - i,
    {
        proof {
            assert(ls.deep_view()[i as int] == ls@[i as int]@);
        }
        if contains_str(ls[i].as_str(), "inet ") {
            return Some(trim_str(ls[i].as_str()).to_owned());
        }
        i = i + 1;
    }
    None
}

/// A decimal `u32` surrounded by optional whitespace (a stored counter, or the
/// hour or minute printed by `date`).
pub fn parse_trimmed_u32(text: &str) -> (res: Option<u32>)
    ensures
        parse_unsigned(trim(text@), 0xffff_ffff) matches Some(v) ==> res == Some(v as u32),
        parse_unsigned(trim(text@), 0xffff_ffff) is None ==> res is None,
{
    parse_u32(trim_str(text))
}

/// The preference check resets the highest-ranked configured WAN, above the link
/// in use, whose address is known; and it resets one whenever such a WAN exists.
pub proof fn law_preference_target_is_best_up_link(config_wans: Seq<WanInterface>, result: IpTestResult)
    ensures
        spec_preference_target(config_wans, result) matches Some(k) ==> {
            &&& result matches IpTestResult::Matched { index, interfaces, .. }
            &&& 0 <= k < index
            &&& k < config_wans.len()
            &&& ip_of(interfaces.wans@, config_wans[k].name@) is Some
            &&& forall|j: int| 0 <= j < k ==> ip_of(interfaces.wans@, #[trigger] config_wans[j].name@) is None
        },
        result matches IpTestResult::Matched { index, interfaces, .. } ==> ((exists|j: int|
            0 <= j < index && j < config_wans.len() && ip_of(interfaces.wans@, #[trigger] config_wans[j].name@)
                is Some) ==> spec_preference_target(config_wans, result) is Some),
{
    law_upgrade_is_best_better_link(result, config_wans);
    if let IpTestResult::Matched { index, interfaces, .. } = result {
        let entries = interfaces.wans@;
        if let Some(n) = spec_upgrade(result, config_wans) {
            lemma_wan_index_from(config_wans, n, 0);
            let i = choose|i: int|
                {
                    &&& result matches IpTestResult::Matched { index, .. }
                    &&& 0 <= i < index
                    &&& i < config_wans.len()
                    &&& #[trigger] config_wans[i].name@ == n
                    &&& ip_of(crate::ip_test::result_interfaces(result).wans@, n) is Some
                    &&& forall|j: int|
                        0 <= j < i ==> ip_of(
                            crate::ip_test::result_interfaces(result).wans@,
                            #[trigger] config_wans[j].name@,
                        ) is None
                };
            assert(config_wans[i].name@ == n);
            let k = wan_index(config_wans, n)->0;
            assert(k <= i);
            assert(config_wans[k].name@ == n);
        }
    }
}

/// What a run of failed pings calls for, by the number of pings that have
/// failed in a row: nothing at none, a log line at one or two, a reset of all
/// PPPoE links from three to eight, a reboot from nine on.
pub proof fn law_ping_action_thresholds(count: nat)
    ensures
        count == 0 ==> ping_action_for(count) == PingAction::NoAction,
        1 <= count <= 2 ==> ping_action_for(count) == PingAction::LogOnly,
        3 <= count <= 8 ==> ping_action_for(count) == PingAction::ResetAllPppoe,
        count >= 9 ==> ping_action_for(count) == PingAction::Reboot,
{
}

/// From a clean state, after any series of ping outcomes, all PPPoE links are
/// reset exactly when the last three to eight pings failed and the one before
/// (if any) did not, and the router is rebooted exactly when at least nine
/// pings in a row have failed.
pub proof fn law_action_follows_failure_run(outcomes: Seq<bool>)
    ensures
        ping_action_for(count_after(0, outcomes)) == PingAction::ResetAllPppoe <==> 3
            <= trailing_failures(outcomes) <= 8,
        ping_action_for(count_after(0, outcomes)) == PingAction::Reboot <==> trailing_failures(outcomes)
            >= 9,
        ping_action_for(count_after(0, outcomes)) == PingAction::LogOnly <==> 1 <= trailing_failures(
            outcomes,
        ) <= 2,
{
    law_count_is_failures_since_success(outcomes);
    law_ping_action_thresholds(count_after(0, outcomes));
}

/// Membership in `pppoe_only`: exactly the PPPoE WANs of the list.
proof fn lemma_pppoe_only_members(wans: Seq<WanInterface>)
    ensures
        forall|i: int|
            0 <= i < pppoe_only(wans).len() ==> (#[trigger] pppoe_only(wans)[i]).kind == WanKind::Pppoe
                && wans.contains(pppoe_only(wans)[i]),
        forall|j: int|
            0 <= j < wans.len() && (#[trigger] wans[j]).kind == WanKind::Pppoe ==> pppoe_only(
                wans,
            ).contains(wans[j]),
{
    let pred = |w: WanInterface| w.kind == WanKind::Pppoe;
    assert forall|i: int| 0 <= i < pppoe_only(wans).len() implies (#[trigger] pppoe_only(wans)[i]).kind
        == WanKind::Pppoe && wans.contains(pppoe_only(wans)[i]) by {
        wans.lemma_filter_pred(pred, i);
        assert(wans.filter(pred).contains(wans.filter(pred)[i]));
        wans.lemma_filter_contains_rev(pred, wans.filter(pred)[i]);
    }
    assert forall|j: int| 0 <= j < wans.len() && (#[trigger] wans[j]).kind == WanKind::Pppoe implies pppoe_only(
        wans,
    ).contains(wans[j]) by {
        wans.lemma_filter_contains(pred, j);
    }
}

/// The missing-address decision, case by case, in terms of the WAN list and
/// which WANs have an address: no PPPoE WAN, nothing; every PPPoE WAN without
/// an address, reset them all; otherwise a PPPoE primary without an address is
/// reset, and anything else calls for nothing.
pub proof fn law_missing_ip_action_cases(wans: Seq<WanInterface>, entries: Seq<(String, Option<String>)>)
    ensures
        (forall|i: int| 0 <= i < wans.len() ==> (#[trigger] wans[i]).kind != WanKind::Pppoe)
            ==> spec_missing_ip_action(wans, entries) == MissingIpAction::NoAction,
        ((exists|i: int| 0 <= i < wans.len() && (#[trigger] wans[i]).kind == WanKind::Pppoe) && (
        forall|i: int|
            0 <= i < wans.len() && (#[trigger] wans[i]).kind == WanKind::Pppoe ==> ip_of(
                entries,
                wans[i].name@,
            ) is None)) ==> spec_missing_ip_action(wans, entries) == MissingIpAction::ResetAllPppoe,
        ((exists|i: int|
            0 <= i < wans.len() && (#[trigger] wans[i]).kind == WanKind::Pppoe && ip_of(
                entries,
                wans[i].name@,
            ) is Some) && wans.len() > 0 && wans[0].kind == WanKind::Pppoe && ip_of(
            entries,
            wans[0].name@,
        ) is None) ==> spec_missing_ip_action(wans, entries) == MissingIpAction::ResetPrimary,
        ((exists|i: int|
            0 <= i < wans.len() && (#[trigger] wans[i]).kind == WanKind::Pppoe && ip_of(
                entries,
                wans[i].name@,
            ) is Some) && !(wans.len() > 0 && wans[0].kind == WanKind::Pppoe && ip_of(
            entries,
            wans[0].name@,
        ) is None)) ==> spec_missing_ip_action(wans, entries) == MissingIpAction::NoAction,
{
    lemma_pppoe_only_members(wans);
    let p = pppoe_only(wans);
    if forall|i: int| 0 <= i < wans.len() ==> (#[trigger] wans[i]).kind != WanKind::Pppoe {
        if p.len() > 0 {
            assert(p[0].kind == WanKind::Pppoe);
            assert(wans.contains(p[0]));
            let j = choose|j: int| 0 <= j < wans.len() && wans[j] == p[0];
            assert(wans[j].kind != WanKind::Pppoe);
        }
    }
    if exists|i: int| 0 <= i < wans.len() && (#[trigger] wans[i]).kind == WanKind::Pppoe {
        let i = choose|i: int| 0 <= i < wans.len() && (#[trigger] wans[i]).kind == WanKind::Pppoe;
        assert(p.contains(wans[i]));
        assert(p.len() > 0);
    }
    if forall|i: int|
        0 <= i < wans.len() && (#[trigger] wans[i]).kind == WanKind::Pppoe ==> ip_of(entries, wans[i].name@)
            is None {
        assert forall|i: int| 0 <= i < p.len() implies pppoe_down(entries, #[trigger] p[i].name@) by {
            assert(wans.contains(p[i]));
            let j = choose|j: int| 0 <= j < wans.len() && wans[j] == p[i];
            assert(wans[j].kind == WanKind::Pppoe);
        }
    }
    if exists|i: int|
        0 <= i < wans.len() && (#[trigger] wans[i]).kind == WanKind::Pppoe && ip_of(entries, wans[i].name@)
            is Some {
        let i = choose|i: int|
            0 <= i < wans.len() && (#[trigger] wans[i]).kind == WanKind::Pppoe && ip_of(
                entries,
                wans[i].name@,
            ) is Some;
        assert(p.contains(wans[i]));
        let m = choose|m: int| 0 <= m < p.len() && p[m] == wans[i];
        assert(!pppoe_down(entries, p[m].name@));
        assert(!all_pppoe_down(wans, entries));
    }
}

} // verus!
