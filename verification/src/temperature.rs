//! The sampling temperature of a request body in the Anthropic format.
use vstd::prelude::*;
use crate::json::member;
use crate::json::text_member;
use crate::json::Json;
use crate::json::JsonView;
use crate::plain_laws::asks_for_thinking;
use crate::plain_laws::is_the_number_one;
use crate::plain_laws::is_with_forced_temperature;
use crate::plain_laws::the_temperature_is_forced_while_thinking;
use crate::text::same_text;
use crate::value::as_u64;
use crate::value::integer_number;
use crate::value::make_number;
use crate::value::number_as_u64;
use crate::value::number_text;
use crate::value::print_number;

verus! {

/// Whether a number is one: the integer, or the floating-point number, which prints as `1.0`.
pub open spec fn is_one(number: serde_json::Number) -> bool {
    number_as_u64(number) == Some(1u64) || number_text(number) == "1.0"@
}

/// Whether a value is the number one.
pub open spec fn is_one_value(value: JsonView) -> bool {
    value matches JsonView::Number(number) && is_one(number)
}

/// Whether the body asks for extended thinking.
pub open spec fn thinking_active(body: JsonView) -> bool {
    match member(body, "thinking"@) {
        Some(thinking) => text_member(thinking, "type"@) == Some("enabled"@) || text_member(
            thinking,
            "type"@,
        ) == Some("adaptive"@),
        None => false,
    }
}

/// The body with a temperature that goes with its thinking setting: where thinking is active,
/// a temperature other than one is replaced by one.
pub open spec fn fitting_temperature(body: JsonView) -> JsonView {
    match body {
        JsonView::Object(members) if thinking_active(body) && members.dom().contains(
            "temperature"@,
        ) && !is_one_value(members["temperature"@]) => JsonView::Object(
            members.insert("temperature"@, JsonView::Number(integer_number(1))),
        ),
        _ => body,
    }
}

/// Whether the temperature of a body, if it has one, goes with its thinking setting.
pub open spec fn temperature_fits(body: JsonView) -> bool {
    thinking_active(body) ==> match member(body, "temperature"@) {
        Some(temperature) => is_one_value(temperature),
        None => true,
    }
}

/// Whether a value is the number one.
fn is_one_json(value: &Json) -> (one: bool)
    ensures
        one == is_one_value(value@),
{
    match value {
        Json::Number(number) => {
            as_u64(number) == Some(1u64) || same_text(print_number(number).as_str(), "1.0")
        },
        _ => false,
    }
}

/// Forces the temperature to one where thinking is active: the API rejects any other one then.
/// A second call changes nothing.
pub fn normalize_temperature_for_thinking(body: &mut Json)
    ensures
        final(body)@ == fitting_temperature(old(body)@),
        temperature_fits(final(body)@),
        is_with_forced_temperature(old(body)@, final(body)@),
        match (old(body)@, final(body)@) {
            (JsonView::Object(members), JsonView::Object(changed)) => asks_for_thinking(members)
                && changed.dom().contains("temperature"@) ==> is_the_number_one(
                changed["temperature"@],
            ),
            _ => true,
        },
        fitting_temperature(final(body)@) == final(body)@,
        forall|key: Seq<char>|
            key != "temperature"@ ==> #[trigger] member(final(body)@, key) == member(
                old(body)@,
                key,
            ),
{
    proof {
        the_temperature_is_forced_while_thinking(body@);
        reveal_strlit("temperature");
        reveal_strlit("thinking");
        assert("temperature"@.len() != "thinking"@.len());
    }
    let kind: Option<&str> = match body.get("thinking") {
        Some(thinking) => match thinking.get("type") {
            Some(kind) => kind.as_text(),
            None => None,
        },
        None => None,
    };
    let active: bool = match kind {
        Some(kind) => same_text(kind, "enabled") || same_text(kind, "adaptive"),
        None => false,
    };
    if !active {
        return;
    }
    let replace: bool = match body.get("temperature") {
        Some(temperature) => !is_one_json(temperature),
        None => false,
    };
    if replace {
        match body {
            Json::Object(members) => {
                members.insert("temperature".to_owned(), Json::Number(make_number(1)))
            },
            _ => {},
        }
    }
}

} // verus!
