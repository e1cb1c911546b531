//! Which settings are accepted, and how many events are sent.

use vstd::prelude::*;

use crate::clock::Moment;
use crate::config::{self, AppConfig, ConfigFault, ManagerConfig};
use crate::credentials::Credentials;
use crate::double::Double;
use crate::event::{EventSeverity, EventView, PartView};
use crate::event_gate::{self, DecisionView, GateView};
use crate::json;
use crate::laws::values;
use crate::text;

verus! {

/// Tells the members apart by their length and some of their letters.
spec fn mark(name: Seq<char>) -> int {
    name.len() as int
}

proof fn lemma_names()
    ensures
        mark("suppressed"@) == 10,
        mark("accepted"@) == 8,
        mark("limit_per_minute"@) == 16,
        mark("manager_limit_per_minute"@) == 24,
{
    assert(mark("suppressed"@) == 10) by {
        reveal_strlit("suppressed");
    }
    assert(mark("accepted"@) == 8) by {
        reveal_strlit("accepted");
    }
    assert(mark("limit_per_minute"@) == 16) by {
        reveal_strlit("limit_per_minute");
    }
    assert(mark("manager_limit_per_minute"@) == 24) by {
        reveal_strlit("manager_limit_per_minute");
    }
}

/// Whether an address is one of an encrypted WebSocket.
pub open spec fn secure(url: Seq<char>) -> bool {
    &&& url.len() >= 6
    &&& url[0] == 'w'
    &&& url[1] == 's'
    &&& url[2] == 's'
    &&& url[3] == ':'
    &&& url[4] == '/'
    &&& url[5] == '/'
}

/// Whether an address is not too long.
pub open spec fn fits(url: Seq<char>) -> bool {
    vstd::utf8::encode_utf8(url).len() <= 2048
}

/// Whether an address stood there before.
pub open spec fn repeated(urls: Seq<Seq<char>>, i: int) -> bool {
    exists|j: int| 0 <= j < i && #[trigger] urls[j] == urls[i]
}

/// Whether nothing is wrong with an address.
pub open spec fn good(urls: Seq<Seq<char>>, i: int) -> bool {
    secure(urls[i]) && fits(urls[i]) && !repeated(urls, i)
}

proof fn lemma_secure(url: Seq<char>)
    ensures
        config::encrypted(url) == secure(url),
{
    reveal_strlit("wss://");
    if url.len() >= 6 {
        let p = url.subrange(0, 6);
        if secure(url) {
            assert(p == "wss://"@);
        }
        if p == "wss://"@ {
            assert(p[0] == 'w' && p[1] == 's' && p[2] == 's' && p[3] == ':' && p[4] == '/' && p[5]
                == '/');
        }
    }
}

proof fn lemma_first(urls: Seq<Seq<char>>, n: nat, i: int)
    requires
        n <= urls.len(),
    ensures
        (forall|j: int| 0 <= j < n ==> #[trigger] good(urls, j)) ==> config::first_url_fault(
            urls,
            n,
        ) is None,
        0 <= i < n && !good(urls, i) && (forall|j: int| 0 <= j < i ==> #[trigger] good(urls, j))
            ==> config::first_url_fault(urls, n) == config::url_fault(urls, i as nat)
            && config::url_fault(urls, i as nat) is Some,
    decreases n,
{
    if n > 0 {
        let k = n - 1;
        lemma_first(urls, k as nat, i);
        lemma_secure(urls[k]);
        let before = urls.take(k);
        if repeated(urls, k) {
            let j = choose|j: int| 0 <= j < k && #[trigger] urls[j] == urls[k];
            assert(before[j] == urls[k]);
        }
        if before.contains(urls[k]) {
            let j = choose|j: int| 0 <= j < before.len() && before[j] == urls[k];
            assert(urls[j] == urls[k]);
        }
        assert(config::url_fault(urls, k as nat) is None <==> good(urls, k));
        if forall|j: int| 0 <= j < n ==> #[trigger] good(urls, j) {
            assert(good(urls, k));
        }
        if 0 <= i < k && !good(urls, i) {
            assert(!good(urls, i));
        }
    }
}

/// Settings are accepted exactly if the unit has an address and, unless that is not looked at, the
/// manager has one address to sixteen, each of an encrypted WebSocket, not too long and given once.
pub proof fn law_settings(c: AppConfig, skip: bool)
    ensures
        ({
            let urls = json::strings_view(c.manager.urls@);
            config::config_fault(c, skip) is None <==> {
                &&& c.appear_x.address@.len() > 0
                &&& skip || (1 <= urls.len() <= 16 && forall|j: int|
                    0 <= j < urls.len() ==> #[trigger] good(urls, j))
            }
        }),
{
    let urls = json::strings_view(c.manager.urls@);
    lemma_first(urls, urls.len(), 0);
    if !skip && 1 <= urls.len() <= 16 && !(forall|j: int|
        0 <= j < urls.len() ==> #[trigger] good(urls, j)) {
        let j = choose|j: int| 0 <= j < urls.len() && !#[trigger] good(urls, j);
        lemma_some_first(urls, j);
        let i = choose|i: int|
            0 <= i <= j && !good(urls, i) && #[trigger] all_good_before(urls, i);
        lemma_first(urls, urls.len(), i);
    }
}

/// Whether nothing is wrong with the addresses before one.
pub open spec fn all_good_before(urls: Seq<Seq<char>>, i: int) -> bool {
    forall|j: int| 0 <= j < i ==> #[trigger] good(urls, j)
}

proof fn lemma_some_first(urls: Seq<Seq<char>>, k: int)
    requires
        0 <= k < urls.len(),
        !good(urls, k),
    ensures
        exists|i: int| 0 <= i <= k && !good(urls, i) && #[trigger] all_good_before(urls, i),
    decreases k,
{
    if all_good_before(urls, k) {
    } else {
        let j = choose|j: int| 0 <= j < k && !#[trigger] good(urls, j);
        lemma_some_first(urls, j);
    }
}

/// What is wrong with settings that are refused: how many addresses the manager has, else the first
/// address with which something is wrong and what that is, else that the unit has none.
pub proof fn law_refused_settings(c: AppConfig, skip: bool, i: int)
    ensures
        ({
            let urls = json::strings_view(c.manager.urls@);
            let fault = config::config_fault(c, skip);
            let counted = !skip && 1 <= urls.len() <= 16;
            &&& !skip && urls.len() == 0 ==> fault == Some(ConfigFault::NoUrls)
            &&& !skip && urls.len() > 16 ==> fault == Some(
                ConfigFault::TooManyUrls { count: urls.len() },
            )
            &&& counted && 0 <= i < urls.len() && !good(urls, i) && all_good_before(urls, i) ==> fault
                == Some(
                if !secure(urls[i]) {
                    ConfigFault::NotEncrypted { index: i as nat, url: urls[i] }
                } else if !fits(urls[i]) {
                    ConfigFault::UrlTooLong { index: i as nat }
                } else {
                    ConfigFault::Duplicate { index: i as nat, url: urls[i] }
                },
            )
            &&& (skip || counted && all_good_before(urls, urls.len() as int))
                && c.appear_x.address@.len() == 0 ==> fault == Some(ConfigFault::NoAddress)
        }),
{
    let urls = json::strings_view(c.manager.urls@);
    lemma_first(urls, urls.len(), i);
    if 0 <= i < urls.len() {
        lemma_secure(urls[i]);
    }
}

/// What is wrong with settings, in words.
pub proof fn law_setting_messages(e: ConfigFault)
    ensures
        e.message() == match e {
            ConfigFault::NoUrls => "Manager urls[] cannot be empty"@,
            ConfigFault::TooManyUrls { count } =>
                "Manager urls[] may contain at most 16 entries (got "@ + text::decimal(count) + ")"@,
            ConfigFault::NotEncrypted { index, url } => "Manager urls["@ + text::decimal(index)
                + "] = "@ + config::quoted(url)
                + " must use wss:// (TLS). Plaintext ws:// connections are not allowed."@,
            ConfigFault::UrlTooLong { index } => "Manager urls["@ + text::decimal(index)
                + "] must be at most 2048 characters"@,
            ConfigFault::Duplicate { index, url } => "Manager urls["@ + text::decimal(index)
                + "] = "@ + config::quoted(url) + " is a duplicate"@,
            ConfigFault::NoAddress => "Appear X address must not be empty"@,
        },
{
}

/// What holds where the operator says nothing.
pub proof fn law_defaults(s: String, b: bool, n: u64, d: Double)
    ensures
        call_ensures(config::default_credentials_file, (), s) ==> s@ == "credentials.json"@,
        call_ensures(config::default_true, (), b) ==> b,
        call_ensures(config::default_5, (), n) ==> n == 5,
        call_ensures(config::default_10, (), n) ==> n == 10,
        call_ensures(config::default_15, (), n) ==> n == 15,
        call_ensures(config::default_30, (), n) ==> n == 30,
        call_ensures(config::default_alarms_mmi_version, (), s) ==> s@ == "2.8"@,
        call_ensures(config::default_chassis_mmi_version, (), s) ==> s@ == "4.1"@,
        call_ensures(config::default_cards_mmi_version, (), s) ==> s@ == "2.8"@,
        call_ensures(config::default_rx_threshold, (), d) ==> d.bits == 0xc032_0000_0000_0000,
        call_ensures(config::default_temp_threshold, (), d) ==> d.bits == 0x4051_8000_0000_0000,
{
}

/// What was kept counts where it has a name and a secret; otherwise only the token of the settings does.
pub proof fn law_credentials(config: &ManagerConfig, stored: Option<Credentials>, r: Credentials)
    requires
        call_ensures(Credentials::load_or_default, (config, stored), r),
    ensures
        ({
            let kept = stored is Some && stored->0@.node_id is Some && stored->0@.node_secret is Some;
            &&& kept ==> r@ == stored->0@
            &&& !kept ==> r@.node_id is None && r@.node_secret is None && r@.registration_token
                == json::string_view(config.registration_token)
        }),
{
}

/// A moment, in nanoseconds.
pub open spec fn nanos(m: Moment) -> int {
    m.secs * 1_000_000_000 + m.nanos
}

/// The moments of the last minute.
pub open spec fn last_minute(moments: Seq<Moment>, now: Moment) -> Seq<Moment> {
    moments.filter(|m: Moment| nanos(now) - nanos(m) < 60_000_000_000)
}

proof fn lemma_last_minute(moments: Seq<Moment>, now: Moment)
    ensures
        event_gate::recent(moments, now) == last_minute(moments, now),
    decreases moments.len(),
{
    reveal(Seq::filter);
    let p = |m: Moment| nanos(now) - nanos(m) < 60_000_000_000;
    if moments.len() > 0 {
        lemma_last_minute(moments.drop_last(), now);
        if p(moments.last()) {
            assert(moments.filter(p) == moments.drop_last().filter(p).push(moments.last()));
        } else {
            assert(moments.filter(p) == moments.drop_last().filter(p));
        }
    }
    assert(event_gate::recent(moments, now) == moments.filter(p));
}

/// What tells that events were dropped.
pub open spec fn notice(dropped: u32) -> EventView {
    event_gate::summary_event(dropped, 950)
}

/// An event passes exactly if fewer than 950 passed in the last minute. One that passes after others were
/// dropped comes with a notice of how many, and the first that is dropped is replaced by a notice of one,
/// unless 49 notices were given in the last minute.
pub proof fn law_event_is_weighed(g: GateView, now: Moment)
    ensures
        ({
            let passes = last_minute(g.accepted, now).len() < 950;
            let may_tell = last_minute(g.summaries, now).len() < 49;
            let after = g.after(now);
            &&& g.decision(now) == (if passes && (g.suppressed == 0 || !may_tell) {
                DecisionView::Send
            } else if passes {
                DecisionView::SendWithRollover { summary: notice(g.suppressed) }
            } else if g.suppressed == 0 && may_tell {
                DecisionView::Suppress { summary: Some(notice(1)) }
            } else {
                DecisionView::Suppress { summary: None }
            })
            &&& after.accepted == (if passes {
                last_minute(g.accepted, now).push(now)
            } else {
                last_minute(g.accepted, now)
            })
            &&& passes && may_tell ==> after.suppressed == 0
            &&& passes && !may_tell ==> after.suppressed == g.suppressed
            &&& !passes && g.suppressed < 0xffff_ffff ==> after.suppressed == g.suppressed + 1
            &&& !passes && g.suppressed == 0xffff_ffff ==> after.suppressed == 0xffff_ffff
            &&& after.summaries == (if may_tell && (passes == (g.suppressed > 0)) {
                last_minute(g.summaries, now).push(now)
            } else {
                last_minute(g.summaries, now)
            })
        }),
{
    lemma_last_minute(g.accepted, now);
    lemma_last_minute(g.summaries, now);
}

/// At first nothing has passed.
pub proof fn law_gate_at_first()
    ensures
        GateView::fresh().accepted.len() == 0,
        GateView::fresh().summaries.len() == 0,
        GateView::fresh().suppressed == 0,
{
}

/// A notice says how many events were dropped, how many passed, and the limits.
pub proof fn law_notice(dropped: u32)
    ensures
        ({
            let e = notice(dropped);
            &&& e.severity == EventSeverity::Minor
            &&& e.category == "event_rate_limit_selfgate"@
            &&& e.message == seq![
                PartView::Text(
                    "Gateway self-rate-limiter engaged: "@ + text::decimal(dropped as nat)
                        + " event(s) suppressed (accepted "@ + text::decimal(950)
                        + " in the current 60s window). Raise the polling cadence only if the manager can absorb more."@,
                ),
            ]
            &&& e.error_code is None
            &&& values::under(e.details, "suppressed"@) == Some(values::number(dropped as nat))
            &&& values::under(e.details, "accepted"@) == Some(values::number(950))
            &&& values::under(e.details, "limit_per_minute"@) == Some(values::number(950))
            &&& values::under(e.details, "manager_limit_per_minute"@) == Some(values::number(1000))
            &&& forall|key: Seq<char>| #[trigger]
                values::under(e.details, key) is Some ==> key == "suppressed"@ || key == "accepted"@
                    || key == "limit_per_minute"@ || key == "manager_limit_per_minute"@
        }),
{
    lemma_names();
}

/// What is sent for an event: the event where it passes, after the notice where there is one, and the
/// notice alone where it does not.
pub proof fn law_what_is_sent(decision: DecisionView, event: EventView)
    ensures
        ({
            let sent = event_gate::let_through(decision, event);
            match decision {
                DecisionView::Send => sent.len() == 1 && sent[0] == event,
                DecisionView::SendWithRollover { summary } => sent.len() == 2 && sent[0] == summary
                    && sent[1] == event,
                DecisionView::Suppress { summary } => match summary {
                    Some(s) => sent.len() == 1 && sent[0] == s,
                    None => sent.len() == 0,
                },
            }
        }),
{
}

} // verus!
