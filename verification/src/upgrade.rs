//! Other versions of the gateway: which releases are trusted, and what the manager is told of an
//! upgrade.

use vstd::prelude::*;

use crate::appear_x::health;
use crate::event::{EventSeverity, EventView, GatewayEvent, PartView};
use crate::json::{Json, JsonView, Object};
use crate::text;

verus! {

/// Who may sign a release.
#[derive(Clone, Copy, Debug)]
pub struct AllowedSigner {
    pub issuer: &'static str,
    pub repo: &'static str,
    pub ref_pattern: &'static str,
    pub workflow: &'static str,
}

/// Where releases come from and what is in them.
#[derive(Debug)]
pub struct UpgradeProfile {
    pub repo: &'static str,
    pub binary_name: &'static str,
    pub device_type: &'static str,
    pub allowed_signers: Vec<AllowedSigner>,
}

/// The one workflow whose releases are trusted.
pub fn allowed_signers() -> (r: Vec<AllowedSigner>)
    ensures
        r@.len() == 1,
        r@[0].issuer@ == "https://token.actions.githubusercontent.com"@,
        r@[0].repo@ == "https://github.com/Bilbycast/bilbycast-appear-x-api-gateway"@,
        r@[0].ref_pattern@ == "refs/tags/v*"@,
        r@[0].workflow@
            == "https://github.com/Bilbycast/bilbycast-appear-x-api-gateway/.github/workflows/nightly-release.yml"@,
{
    let mut out: Vec<AllowedSigner> = Vec::new();
    out.push(
        AllowedSigner {
            issuer: "https://token.actions.githubusercontent.com",
            repo: "https://github.com/Bilbycast/bilbycast-appear-x-api-gateway",
            ref_pattern: "refs/tags/v*",
            workflow: "https://github.com/Bilbycast/bilbycast-appear-x-api-gateway/.github/workflows/nightly-release.yml",
        },
    );
    out
}

/// Where the releases of this gateway come from.
pub fn profile() -> (r: UpgradeProfile)
    ensures
        r.repo@ == "Bilbycast/bilbycast-appear-x-api-gateway"@,
        r.binary_name@ == "bilbycast-appear-x-api-gateway"@,
        r.device_type@ == "appear_x"@,
        r.allowed_signers@.len() == 1,
        r.allowed_signers@[0].issuer@ == "https://token.actions.githubusercontent.com"@,
        r.allowed_signers@[0].repo@
            == "https://github.com/Bilbycast/bilbycast-appear-x-api-gateway"@,
        r.allowed_signers@[0].ref_pattern@ == "refs/tags/v*"@,
        r.allowed_signers@[0].workflow@
            == "https://github.com/Bilbycast/bilbycast-appear-x-api-gateway/.github/workflows/nightly-release.yml"@,
{
    UpgradeProfile {
        repo: "Bilbycast/bilbycast-appear-x-api-gateway",
        binary_name: "bilbycast-appear-x-api-gateway",
        device_type: "appear_x",
        allowed_signers: allowed_signers(),
    }
}

/// Something that happened during an upgrade.
#[derive(Debug)]
pub struct UpgradeEvent {
    pub severity: String,
    pub error_code: String,
    pub message: String,
    pub from_version: Option<String>,
    pub to_version: Option<String>,
    pub channel: Option<String>,
    pub size_bytes: Option<u64>,
}

/// How grave a named severity is.
pub open spec fn severity_named(name: Seq<char>) -> EventSeverity {
    if name == "critical"@ {
        EventSeverity::Critical
    } else if name == "major"@ {
        EventSeverity::Major
    } else if name == "minor"@ {
        EventSeverity::Minor
    } else {
        EventSeverity::Info
    }
}

/// A text that may be absent.
pub open spec fn known_text(o: Option<String>) -> Option<JsonView> {
    match o {
        Some(s) => Some(JsonView::Text(s@)),
        None => None,
    }
}

/// The event that the manager is sent.
pub open spec fn upgrade_event_view(e: UpgradeEvent) -> EventView {
    let m = Map::empty().insert("error_code"@, JsonView::Text(e.error_code@));
    let m = health::put(m, "from_version"@, known_text(e.from_version));
    let m = health::put(m, "to_version"@, known_text(e.to_version));
    let m = health::put(m, "channel"@, known_text(e.channel));
    let m = health::put(
        m,
        "size_bytes"@,
        match e.size_bytes {
            Some(n) => Some(JsonView::of_unsigned(n as nat)),
            None => None,
        },
    );
    EventView {
        severity: severity_named(e.severity@),
        category: "upgrade"@,
        message: seq![PartView::Text(e.message@)],
        error_code: Some(e.error_code@),
        details: Some(JsonView::Object(m)),
    }
}

fn set_known(o: &mut Object, key: &str, value: &Option<String>)
    ensures
        final(o)@ == health::put(old(o)@, key@, known_text(*value)),
{
    match value {
        Some(s) => {
            o.set(key, Json::from_text(s.as_str()));
        },
        None => {},
    }
}

/// The event that the manager is sent.
pub fn upgrade_event(e: &UpgradeEvent) -> (r: GatewayEvent)
    ensures
        r@ == upgrade_event_view(*e),
{
    let name = e.severity.as_str();
    let severity = if text::str_eq(name, "critical") {
        EventSeverity::Critical
    } else if text::str_eq(name, "major") {
        EventSeverity::Major
    } else if text::str_eq(name, "minor") {
        EventSeverity::Minor
    } else {
        EventSeverity::Info
    };
    let mut details = Object::new();
    details.set("error_code", Json::from_text(e.error_code.as_str()));
    set_known(&mut details, "from_version", &e.from_version);
    set_known(&mut details, "to_version", &e.to_version);
    set_known(&mut details, "channel", &e.channel);
    if let Some(n) = e.size_bytes {
        details.set("size_bytes", Json::from_u64(n));
    }
    GatewayEvent::new(severity, "upgrade", e.message.clone()).with_error_code(
        e.error_code.as_str(),
    ).with_details(Json::Object(details))
}

} // verus!
