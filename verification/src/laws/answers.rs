//! What commands are answered with, and why they are refused.

use vstd::prelude::*;

use crate::appear_x::commands::{
    self, AppearXCommandHandler, CommandError, CommandFault, DeferredAppearXHandler, MmiVersions,
};
use crate::appear_x::discovery::{self, DiscoveryError};
use crate::appear_x::polling;
use crate::appear_x::state;
use crate::config::PollingConfig;
use crate::json::{self, Json, JsonView};
use crate::laws::{values, wire};
use crate::text;
use crate::ws::client::{self, HandlerReply, ManagerRequest};
use crate::ws::message;

verus! {

/// A message that answers a command has the type of an answer and tells what it was given.
pub proof fn law_ack_messages(
    command_id: &str,
    success: bool,
    data: Option<Json>,
    error: Option<&str>,
    code: &str,
    refusal: &CommandError,
    r: Json,
)
    ensures
        call_ensures(message::command_ack, (command_id, success, data, error), r) ==> exists|
            payload: JsonView,
        | #[trigger]
            wire::message_of(r@, "command_ack"@, payload) && wire::answers(
                Some(payload),
                command_id@,
                success,
                state::owned_view(data),
                json::text_view(error),
                None,
            ),
        call_ensures(message::command_failed, (command_id, data, error, code), r) ==> exists|
            payload: JsonView,
        | #[trigger]
            wire::message_of(r@, "command_ack"@, payload) && wire::answers(
                Some(payload),
                command_id@,
                false,
                state::owned_view(data),
                json::text_view(error),
                Some(code@),
            ),
        call_ensures(message::command_refused, (command_id, refusal), r) ==> exists|
            payload: JsonView,
        | #[trigger]
            wire::message_of(r@, "command_ack"@, payload) && wire::answers(
                Some(payload),
                command_id@,
                false,
                None,
                Some(refusal@.message()),
                Some(refusal@.code()),
            ),
{
    let given = state::owned_view(data);
    let ack = JsonView::Object(
        message::ack_payload(command_id@, success, given, json::text_view(error)),
    );
    let failed = JsonView::Object(
        message::failure_payload(command_id@, given, json::text_view(error), code@),
    );
    let refused = JsonView::Object(
        message::failure_payload(
            command_id@,
            None,
            Some(refusal@.message()),
            refusal@.code(),
        ),
    );
    wire::law_envelope(r@, "command_ack"@, ack);
    wire::law_envelope(r@, "command_ack"@, failed);
    wire::law_envelope(r@, "command_ack"@, refused);
    wire::lemma_answers(command_id@, success, given, json::text_view(error), code@);
    wire::lemma_answers(
        command_id@,
        false,
        None,
        Some(refusal@.message()),
        refusal@.code(),
    );
    if call_ensures(message::command_ack, (command_id, success, data, error), r) {
        assert(wire::message_of(r@, "command_ack"@, ack));
    }
    if call_ensures(message::command_failed, (command_id, data, error, code), r) {
        assert(wire::message_of(r@, "command_ack"@, failed));
    }
    if call_ensures(message::command_refused, (command_id, refusal), r) {
        assert(wire::message_of(r@, "command_ack"@, refused));
    }
}

/// What came back for a command is sent as an answer.
pub proof fn law_handler_reply(command_id: &str, reply: HandlerReply, r: Json)
    requires
        call_ensures(client::ack_message, (command_id, reply), r),
    ensures
        wire::message_of(r@, "command_ack"@, client::ack_of(command_id@, reply@)),
{
    wire::law_envelope(r@, "command_ack"@, client::ack_of(command_id@, reply@));
}

/// A request for the configuration is answered and then followed by the configuration.
pub proof fn law_config_replies(command_id: &str, config: Json, r: Vec<Json>)
    requires
        call_ensures(client::config_replies, (command_id, config), r),
    ensures
        r@.len() == 2,
        exists|payload: JsonView| #[trigger]
            wire::message_of(r@[0]@, "command_ack"@, payload) && wire::answers(
                Some(payload),
                command_id@,
                true,
                None,
                None,
                None,
            ),
        wire::message_of(r@[1]@, "config_response"@, config@),
{
    let ack = JsonView::Object(message::ack_payload(command_id@, true, None, None));
    wire::law_envelope(r@[0]@, "command_ack"@, ack);
    wire::law_envelope(r@[1]@, "config_response"@, config@);
    wire::lemma_answers(command_id@, true, None, None, Seq::empty());
    assert(wire::message_of(r@[0]@, "command_ack"@, ack));
}

/// A text from the manager means what it holds; one that cannot be read means nothing.
pub proof fn law_manager_text(s: &str, r: Option<ManagerRequest>)
    requires
        call_ensures(client::handle_manager_text, (s,), r),
    ensures
        r is Some <==> json::parsed(s@) is Some,
        r matches Some(w) ==> w@ == client::wanted(json::parsed(s@)->0),
{
}

/// The configuration of a unit that was not discovered is that it was not; that of another is its
/// snapshot.
pub proof fn law_config(d: &DeferredAppearXHandler, r: Json)
    requires
        call_ensures(DeferredAppearXHandler::on_config_request, (d,), r),
    ensures
        d.inner is None ==> r@ == JsonView::Object(
            Map::empty().insert("discovery_in_progress"@, JsonView::Bool(true)),
        ),
        d.inner matches Some(h) ==> exists|uptime: u64|
            r@ == #[trigger] state::snapshot_of(h.state@, uptime),
{
}

/// The first handler that is installed stays.
pub proof fn law_install(d: &mut DeferredAppearXHandler, h: AppearXCommandHandler)
    requires
        call_ensures(DeferredAppearXHandler::install, (d, h), ()),
    ensures
        old(d).inner is None ==> final(d).inner == Some(h),
        old(d).inner is Some ==> final(d).inner == old(d).inner,
        final(d).upgrades == old(d).upgrades,
{
}

/// A call that failed on the unit is refused with the code for that and the unit's words.
pub proof fn law_vendor_error(description: String, r: CommandError)
    requires
        call_ensures(commands::make_vendor_error, (description,), r),
    ensures
        r@.code() == "vendor_api_error"@,
        r@.message() == description@,
{
}

/// An item of a list with a key and a value.
pub open spec fn complete(item: JsonView) -> bool {
    &&& values::text_in(values::under(Some(item), "key"@)) is Some
    &&& values::text_in(values::under(Some(item), "key"@))->0.len() > 0
    &&& values::under(Some(item), "value"@) is Some
}

/// What is wrong with an item.
pub open spec fn wrong_with(item: JsonView) -> Seq<char> {
    let key = values::text_in(values::under(Some(item), "key"@));
    if item !is Object {
        "' must be an object with 'key' and 'value'"@
    } else if key is None || key->0.len() == 0 {
        ".key' must be a non-empty string"@
    } else {
        ".value' is missing"@
    }
}

proof fn lemma_item(item: JsonView, field: Seq<char>, i: nat)
    ensures
        complete(item) <==> commands::keyed_item(item, field, i) is Ok,
        !complete(item) ==> commands::keyed_item(item, field, i) == Err::<
            (Seq<char>, JsonView),
            CommandFault,
        >(
            CommandFault::Validation(
                "'"@ + field + "["@ + text::decimal(i) + "]"@ + wrong_with(item),
            ),
        ),
{
}

/// The first item of a list that is not as it should be is told, with what is wrong with it.
pub proof fn law_first_bad_item(items: Seq<JsonView>, field: Seq<char>, n: nat, i: int)
    requires
        0 <= i < n <= items.len(),
        !complete(items[i]),
        forall|j: int| 0 <= j < i ==> complete(#[trigger] items[j]),
    ensures
        commands::keyed(items, field, n) == Err::<Map<Seq<char>, JsonView>, CommandFault>(
            CommandFault::Validation(
                "'"@ + field + "["@ + text::decimal(i as nat) + "]"@ + wrong_with(items[i]),
            ),
        ),
    decreases n,
{
    lemma_item(items[n - 1], field, (n - 1) as nat);
    if i < n - 1 {
        law_first_bad_item(items, field, (n - 1) as nat, i);
    } else {
        lemma_all_good(items, field, (n - 1) as nat);
    }
}

proof fn lemma_all_good(items: Seq<JsonView>, field: Seq<char>, n: nat)
    requires
        n <= items.len(),
        forall|j: int| 0 <= j < n ==> complete(#[trigger] items[j]),
    ensures
        commands::keyed(items, field, n) is Ok,
    decreases n,
{
    if n > 0 {
        lemma_all_good(items, field, (n - 1) as nat);
        assert(complete(items[n - 1]));
        lemma_item(items[n - 1], field, (n - 1) as nat);
    }
}

/// A name in small letters, with an underscore before what was a capital.
pub open spec fn spelled(rest: Seq<char>) -> Seq<char>
    decreases rest.len(),
{
    if rest.len() == 0 {
        Seq::empty()
    } else if 'A' <= rest[0] <= 'Z' {
        seq!['_', text::ascii_lower(rest[0])] + spelled(rest.subrange(1, rest.len() as int))
    } else {
        seq![rest[0]] + spelled(rest.subrange(1, rest.len() as int))
    }
}

proof fn lemma_spelled_push(rest: Seq<char>, c: char)
    ensures
        spelled(rest.push(c)) == spelled(rest) + (if 'A' <= c <= 'Z' {
            seq!['_', text::ascii_lower(c)]
        } else {
            seq![c]
        }),
    decreases rest.len(),
{
    let all = rest.push(c);
    if rest.len() == 0 {
        assert(all.subrange(1, 1) == Seq::<char>::empty());
        assert(spelled(all.subrange(1, 1)) == Seq::<char>::empty());
        assert(spelled(rest) == Seq::<char>::empty());
        assert(spelled(all) == spelled(rest) + (if 'A' <= c <= 'Z' {
            seq!['_', text::ascii_lower(c)]
        } else {
            seq![c]
        }));
    } else {
        let tail = rest.subrange(1, rest.len() as int);
        lemma_spelled_push(tail, c);
        assert(all.subrange(1, all.len() as int) == tail.push(c));
        assert(spelled(all) == spelled(rest) + (if 'A' <= c <= 'Z' {
            seq!['_', text::ascii_lower(c)]
        } else {
            seq![c]
        }));
    }
}

/// The name of the action for a command is the command in small letters, with an underscore before each
/// capital but the first letter.
pub proof fn law_action_name(first: char, rest: Seq<char>)
    ensures
        commands::action_name(Seq::empty()).len() == 0,
        commands::action_name(seq![first] + rest) == seq![text::ascii_lower(first)] + spelled(rest),
        text::ascii_lower(first) as int == (if 'A' <= first <= 'Z' {
            first as int + 32
        } else {
            first as int
        }),
    decreases rest.len(),
{
    let all = seq![first] + rest;
    if rest.len() == 0 {
        assert(all.drop_last() == Seq::<char>::empty());
        assert(commands::action_name(all.drop_last()) == Seq::<char>::empty());
        assert(commands::action_name(all) == seq![text::ascii_lower(first)] + spelled(rest));
    } else {
        let fewer = rest.drop_last();
        law_action_name(first, fewer);
        assert(all.drop_last() == seq![first] + fewer);
        assert(rest == fewer.push(rest.last()));
        lemma_spelled_push(fewer, rest.last());
        assert(commands::action_name(all) == seq![text::ascii_lower(first)] + spelled(rest));
    }
}

/// The versions for commands to the chassis are those with which it is polled.
pub proof fn law_command_versions(p: &PollingConfig, r: MmiVersions)
    requires
        call_ensures(<MmiVersions as From<&PollingConfig>>::from, (p,), r),
    ensures
        r.alarms@ == p.alarms_mmi_version@,
        r.chassis@ == p.chassis_mmi_version@,
{
}

/// The versions with which a chassis is looked for, in this order, and why none was found, in words.
pub proof fn law_discovery_words(r: Vec<String>)
    ensures
        call_ensures(discovery::cards_mmi_versions, (), r) ==> json::strings_view(r@) == seq![
            "2.8"@,
            "2.16"@,
            "4.1"@,
            "1.0"@,
        ],
        DiscoveryError::NotAuthenticated.words()
            == "Failed to authenticate with Appear unit during discovery"@,
        DiscoveryError::NoChassis.words()
            == "None of the configured MMI versions responded to cards/GetChassisInfo. Set polling.cards_mmi_version explicitly in config.toml."@,
{
}

/// How often measurements go out, and how long an upgrade waits for its answer to be sent.
pub proof fn law_cadence()
    ensures
        polling::STATS_EMIT_INTERVAL_SECS == 5,
        commands::UPGRADE_DRAIN_SECS == 5,
{
}

} // verus!
