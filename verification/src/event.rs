//! Events for the manager.

use vstd::prelude::*;

use crate::double::Double;
use crate::json::{self, Json, JsonView, Object};

verus! {

/// How grave an event is.
#[derive(Clone, Copy, Debug, PartialEq, Eq, Structural)]
pub enum EventSeverity {
    Info,
    Minor,
    Major,
    Critical,
}

impl EventSeverity {
    /// What the manager calls it.
    pub open spec fn name(self) -> Seq<char> {
        match self {
            EventSeverity::Info => "info"@,
            EventSeverity::Minor => "minor"@,
            EventSeverity::Major => "major"@,
            EventSeverity::Critical => "critical"@,
        }
    }

    /// What the manager calls it.
    pub fn as_str(&self) -> (r: &'static str)
        ensures
            r@ == self.name(),
    {
        match self {
            EventSeverity::Info => "info",
            EventSeverity::Minor => "minor",
            EventSeverity::Major => "major",
            EventSeverity::Critical => "critical",
        }
    }
}

/// A piece of a message.
#[derive(Debug)]
pub enum Part {
    Text(String),
    /// A measurement, to be written with the given number of decimals.
    Fixed { value: Double, decimals: u8 },
}

/// What a [`Part`] holds.
#[verifier::ext_equal]
pub enum PartView {
    Text(Seq<char>),
    Fixed { value: Double, decimals: u8 },
}

impl View for Part {
    type V = PartView;

    open spec fn view(&self) -> PartView {
        match *self {
            Part::Text(s) => PartView::Text(s@),
            Part::Fixed { value, decimals } => PartView::Fixed { value, decimals },
        }
    }
}

/// What the pieces of a message hold.
pub open spec fn parts_view(s: Seq<Part>) -> Seq<PartView> {
    s.map_values(|p: Part| p@)
}

/// An event.
#[derive(Debug)]
pub struct GatewayEvent {
    pub severity: EventSeverity,
    pub category: String,
    /// The message, in pieces that stand one after the other.
    pub message: Vec<Part>,
    pub error_code: Option<String>,
    pub details: Option<Json>,
}

/// What a [`GatewayEvent`] holds.
#[verifier::ext_equal]
pub struct EventView {
    pub severity: EventSeverity,
    pub category: Seq<char>,
    pub message: Seq<PartView>,
    pub error_code: Option<Seq<char>>,
    pub details: Option<JsonView>,
}

impl View for GatewayEvent {
    type V = EventView;

    open spec fn view(&self) -> EventView {
        EventView {
            severity: self.severity,
            category: self.category@,
            message: parts_view(self.message@),
            error_code: json::string_view(self.error_code),
            details: match self.details {
                Some(d) => Some(d@),
                None => None,
            },
        }
    }
}

/// What a list of events holds.
pub open spec fn events_view(s: Seq<GatewayEvent>) -> Seq<EventView> {
    s.map_values(|e: GatewayEvent| e@)
}

/// An event whose message is one text.
pub open spec fn event(
    severity: EventSeverity,
    category: Seq<char>,
    message: Seq<char>,
    details: Option<JsonView>,
) -> EventView {
    EventView {
        severity,
        category,
        message: seq![PartView::Text(message)],
        error_code: None,
        details,
    }
}

impl EventView {
    /// The event as it is sent, given its message with the measurements written out. What it does
    /// not have is left out.
    pub open spec fn payload(self, message: Seq<char>) -> JsonView {
        let m = Map::empty().insert("severity"@, JsonView::Text(self.severity.name())).insert(
            "category"@,
            JsonView::Text(self.category),
        ).insert("message"@, JsonView::Text(message));
        let m = match self.error_code {
            Some(code) => m.insert("error_code"@, JsonView::Text(code)),
            None => m,
        };
        JsonView::Object(
            match self.details {
                Some(d) => m.insert("details"@, d),
                None => m,
            },
        )
    }
}

impl GatewayEvent {
    /// The event as it is sent, given its message with the measurements written out.
    pub fn to_payload(&self, message: &str) -> (r: Json)
        ensures
            r@ == self@.payload(message@),
    {
        let mut o = Object::new();
        o.set("severity", Json::from_text(self.severity.as_str()));
        o.set("category", Json::from_text(self.category.as_str()));
        o.set("message", Json::from_text(message));
        if let Some(code) = &self.error_code {
            o.set("error_code", Json::from_text(code.as_str()));
        }
        if let Some(details) = &self.details {
            o.set("details", details.copy());
        }
        Json::Object(o)
    }

    /// An event without details.
    pub fn new(severity: EventSeverity, category: &str, message: String) -> (r: GatewayEvent)
        ensures
            r@ == event(severity, category@, message@, None),
    {
        let mut parts: Vec<Part> = Vec::new();
        parts.push(Part::Text(message));
        GatewayEvent {
            severity,
            category: category.to_owned(),
            message: parts,
            error_code: None,
            details: None,
        }
    }

    /// An event that is no reason for alarm.
    pub fn info(category: &str, message: String) -> (r: GatewayEvent)
        ensures
            r@ == event(EventSeverity::Info, category@, message@, None),
    {
        GatewayEvent::new(EventSeverity::Info, category, message)
    }

    /// An event whose message holds measurements.
    pub fn measured(severity: EventSeverity, category: &str, message: Vec<Part>) -> (r:
        GatewayEvent)
        ensures
            r@ == (EventView {
                severity,
                category: category@,
                message: parts_view(message@),
                error_code: None,
                details: None,
            }),
    {
        GatewayEvent {
            severity,
            category: category.to_owned(),
            message,
            error_code: None,
            details: None,
        }
    }

    /// The event with details.
    pub fn with_details(self, details: Json) -> (r: GatewayEvent)
        ensures
            r@ == (EventView { details: Some(details@), ..self@ }),
    {
        GatewayEvent { details: Some(details), ..self }
    }

    /// The event with an error code.
    pub fn with_error_code(self, code: &str) -> (r: GatewayEvent)
        ensures
            r@ == (EventView { error_code: Some(code@), ..self@ }),
    {
        GatewayEvent { error_code: Some(code.to_owned()), ..self }
    }
}

} // verus!
