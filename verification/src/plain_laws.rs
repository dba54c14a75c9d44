//! What the operations do, said of members, characters, bytes and numbers themselves.
use vstd::prelude::*;
use vstd::utf8::decode_utf8;
use vstd::utf8::encode_utf8;
use vstd::utf8::valid_utf8;
use crate::chat::accepted_request;
use crate::chat::canonical_thinking;
use crate::chat::rejected_fields;
use crate::chat::request_body;
use crate::chat::unmarked_message;
use crate::chat::CompletionRequest;
use crate::chat::CompletionRequestView;
use crate::error::ByokError;
use crate::error::ByokErrorView;
use crate::executor::applied_cloaking;
use crate::executor::executor_transport;
use crate::executor::is_prepared;
use crate::executor::option_view;
use crate::executor::prepared_body;
use crate::executor::scope_of;
use crate::executor::ClaudeExecutor;
use crate::executor::CloakConfig;
use crate::executor::CloakConfigView;
use crate::executor::Cloaking;
use crate::executor::Credential;
use crate::executor::CredentialView;
use crate::executor::PreparedRequest;
use crate::executor::DEFAULT_BASE_URL;
use crate::gateway::canonical_request;
use crate::gateway::TransportSettings;
use crate::gateway::translated_body;
use crate::headers::fingerprint_headers;
use crate::headers::is_header_text;
use crate::headers::is_sendable;
use crate::headers::is_visible_byte;
use crate::headers::lemma_client_names;
use crate::headers::listed_bytes;
use crate::headers::listed_texts;
use crate::headers::client_names;
use crate::headers::one_value;
use crate::headers::transport_names;
use crate::headers::values_under;
use crate::headers::visible_text;
use crate::headers::visible_texts;
use crate::headers::DeviceProfile;
use crate::headers::ANTHROPIC_VERSION;
use crate::headers::RUNTIME_VERSION;
use crate::headers::SDK_PACKAGE_VERSION;
use crate::ids::oid_uuid;
use crate::json::array_view;
use crate::json::lemma_array_index;
use crate::json::lemma_entries_absent;
use crate::json::lemma_entries_lookup;
use crate::json::member;
use crate::json::text_member;
use crate::json::Json;
use crate::json::JsonObject;
use crate::json::JsonView;
use crate::laws::lemma_fixed_values;
use crate::laws::lemma_transport_names;
use crate::laws::thirteen_headers_identify_the_client;
use crate::program::beta_flags;
use crate::program::is_program_name;
use crate::program::joined;
use crate::program::session_header;
use crate::temperature::fitting_temperature;
use crate::temperature::temperature_fits;
use crate::text::decoded_text;
use crate::text::lemma_decoded_utf8;
use crate::text::lossy_text;
use crate::text::starts_with;
use crate::text::trim;
use crate::text::trim_end;
use crate::text::trim_start;
use crate::text::white_space;
use crate::value::integer_number;
use crate::value::number_as_u64;
use crate::value::number_text;
use crate::value::slice_json;

verus! {

// JSON values.

/// A JSON value holds what is written in it.
pub proof fn values_hold_what_is_written(value: Json)
    ensures
        value@ == match value {
            Json::Null => JsonView::Null,
            Json::Bool(b) => JsonView::Bool(b),
            Json::Number(n) => JsonView::Number(n),
            Json::Text(text) => JsonView::Text(text@),
            Json::Array(items) => JsonView::Array(
                Seq::new(items@.len(), |i: int| items@[i]@),
            ),
            Json::Object(object) => JsonView::Object(object@),
        },
{
    match value {
        Json::Array(items) => {
            lemma_array_index(items@);
            assert(array_view(items@) =~= Seq::new(items@.len(), |i: int| items@[i]@));
        },
        _ => {},
    }
}

/// An object has a member exactly under the keys of its entries, and the last entry under a key
/// counts.
pub proof fn objects_have_the_members_of_their_entries(object: JsonObject, key: Seq<char>)
    ensures
        object@.dom().contains(key) <==> exists|i: int|
            0 <= i < object.entries@.len() && (#[trigger] object.entries@[i]).0@ == key,
        forall|i: int|
            #![trigger object.entries@[i]]
            0 <= i < object.entries@.len() && object.entries@[i].0@ == key && (forall|j: int|
                i < j < object.entries@.len() ==> (#[trigger] object.entries@[j]).0@ != key)
                ==> object@.dom().contains(key) && object@[key] == object.entries@[i].1@,
{
    let entries = object.entries@;
    if exists|i: int| 0 <= i < entries.len() && (#[trigger] entries[i]).0@ == key {
        lemma_last_entry(entries, key);
        let last = choose|i: int|
            0 <= i < entries.len() && (#[trigger] entries[i]).0@ == key && forall|j: int|
                i < j < entries.len() ==> entries[j].0@ != key;
        lemma_entries_lookup(entries, key, last);
    } else {
        lemma_entries_absent(entries, key);
    }
    assert forall|i: int|
        #![trigger object.entries@[i]]
        0 <= i < entries.len() && entries[i].0@ == key && (forall|j: int|
            i < j < entries.len() ==> (#[trigger] entries[j]).0@
                != key) implies object@.dom().contains(key) && object@[key] == entries[i].1@ by {
        lemma_entries_lookup(entries, key, i);
    }
}

/// Of the entries under a key there is a last one.
proof fn lemma_last_entry(entries: Seq<(String, Json)>, key: Seq<char>)
    requires
        exists|i: int| 0 <= i < entries.len() && (#[trigger] entries[i]).0@ == key,
    ensures
        exists|i: int|
            0 <= i < entries.len() && (#[trigger] entries[i]).0@ == key && forall|j: int|
                i < j < entries.len() ==> entries[j].0@ != key,
    decreases entries.len(),
{
    let n = entries.len() - 1;
    if entries[n].0@ != key {
        let rest = entries.drop_last();
        let i = choose|i: int| 0 <= i < entries.len() && (#[trigger] entries[i]).0@ == key;
        assert(rest[i].0@ == key);
        lemma_last_entry(rest, key);
        let k = choose|i: int|
            0 <= i < rest.len() && (#[trigger] rest[i]).0@ == key && forall|j: int|
                i < j < rest.len() ==> rest[j].0@ != key;
        assert(entries[k].0@ == key);
        assert forall|j: int| k < j < entries.len() implies entries[j].0@ != key by {
            if j < n {
                assert(rest[j] == entries[j]);
            }
        }
    }
}

/// The member of a value under a key is that of the object that the value is, and its text is the
/// text that the member is.
pub proof fn members_are_those_of_the_object(value: JsonView, key: Seq<char>, text: Seq<char>)
    ensures
        match value {
            JsonView::Object(members) => if members.dom().contains(key) {
                member(value, key) == Some(members[key])
            } else {
                member(value, key) is None
            },
            _ => member(value, key) is None,
        },
        text_member(value, key) == Some(text) <==> (value matches JsonView::Object(members)
            && members.dom().contains(key) && members[key] == JsonView::Text(text)),
{
}

// Chat requests.

/// A request holds its own fields as they are.
pub proof fn requests_hold_their_fields(request: CompletionRequest)
    ensures
        request@.model == request.model@,
        request@.stream == request.stream,
        request@.extra == request.extra@,
        request@.messages.len() == request.messages@.len(),
        forall|i: int|
            0 <= i < request.messages@.len() ==> #[trigger] request@.messages[i]
                == request.messages@[i]@,
{
    lemma_array_index(request.messages@);
}

/// The body of a request has all its extra fields, and its own ones under `model`, `messages` and
/// `stream` where no extra one stands there.
pub proof fn bodies_hold_every_field(request: CompletionRequestView, key: Seq<char>)
    ensures
        request.extra.dom().contains(key) ==> request_body(request).dom().contains(key)
            && request_body(request)[key] == request.extra[key],
        !request.extra.dom().contains(key) ==> {
            let body = request_body(request);
            &&& body.dom().contains(key) <==> (key == "model"@ || key == "messages"@ || key
                == "stream"@)
            &&& key == "model"@ ==> body[key] == JsonView::Text(request.model)
            &&& key == "messages"@ ==> body[key] == JsonView::Array(request.messages)
            &&& key == "stream"@ ==> body[key] == JsonView::Bool(request.stream)
        },
{
    lemma_own_names();
}

/// The names of a request's own fields differ.
proof fn lemma_own_names()
    ensures
        "model"@ != "messages"@,
        "model"@ != "stream"@,
        "messages"@ != "stream"@,
{
    reveal_strlit("model");
    reveal_strlit("messages");
    reveal_strlit("stream");
    assert("model"@.len() == 5 && "messages"@.len() == 8 && "stream"@.len() == 6);
}

/// Whether the API rejects a field of that name.
pub open spec fn is_unknown_to_the_api(key: Seq<char>) -> bool {
    ||| key == "stream_options"@
    ||| key == "temperature"@
    ||| key == "top_p"@
    ||| key == "n"@
    ||| key == "reasoning_effort"@
    ||| key == "reasoning"@
    ||| key == "think"@
    ||| key == "thinking_config"@
}

/// Whether `sent` is a message as it was given but for its member `cache_control`.
pub open spec fn is_message_without_marker(given: JsonView, sent: JsonView) -> bool {
    match (given, sent) {
        (JsonView::Object(g), JsonView::Object(s)) => {
            &&& !s.dom().contains("cache_control"@)
            &&& forall|key: Seq<char>|
                key != "cache_control"@ ==> #[trigger] s.dom().contains(key) == g.dom().contains(
                    key,
                ) && (g.dom().contains(key) ==> s[key] == g[key])
        },
        (JsonView::Object(_), _) => false,
        _ => sent == given,
    }
}

/// Whether the messages are all there, in order, each without its marker.
pub open spec fn are_messages_without_markers(given: Seq<JsonView>, sent: Seq<JsonView>) -> bool {
    &&& sent.len() == given.len()
    &&& forall|i: int|
        0 <= i < given.len() ==> is_message_without_marker(given[i], #[trigger] sent[i])
}

/// Whether the thinking setting under `sent` is the one that stands for that under `given`: one
/// with a mode as it is, a known type as a mode alone, and any other as none.
pub open spec fn is_thinking_for(
    given: Map<Seq<char>, JsonView>,
    sent: Map<Seq<char>, JsonView>,
) -> bool {
    let key = "thinking"@;
    if given.dom().contains(key) {
        match given[key] {
            JsonView::Object(setting) => if setting.dom().contains("mode"@) {
                sent.dom().contains(key) && sent[key] == given[key]
            } else if setting.dom().contains("type"@) && (setting["type"@] == JsonView::Text(
                "disabled"@,
            ) || setting["type"@] == JsonView::Text("none"@)) {
                sent.dom().contains(key) && sent[key] == JsonView::Object(
                    map!["mode"@ => JsonView::Text("disabled"@)],
                )
            } else if setting.dom().contains("type"@) && (setting["type"@] == JsonView::Text(
                "auto"@,
            ) || setting["type"@] == JsonView::Text("adaptive"@)) {
                sent.dom().contains(key) && sent[key] == JsonView::Object(
                    map!["mode"@ => JsonView::Text("auto"@)],
                )
            } else {
                !sent.dom().contains(key)
            },
            _ => !sent.dom().contains(key),
        }
    } else {
        !sent.dom().contains(key)
    }
}

/// The thinking setting is replaced by the one that stands for it, and nothing else changes.
pub proof fn thinking_settings_are_replaced(extra: Map<Seq<char>, JsonView>, key: Seq<char>)
    ensures
        is_thinking_for(extra, canonical_thinking(extra)),
        key != "thinking"@ ==> canonical_thinking(extra).dom().contains(key)
            == extra.dom().contains(key),
        key != "thinking"@ && extra.dom().contains(key) ==> canonical_thinking(extra)[key]
            == extra[key],
{
    lemma_thinking_types();
}

/// The types of thinking differ.
proof fn lemma_thinking_types()
    ensures
        "disabled"@ != "auto"@,
        "disabled"@ != "adaptive"@,
        "none"@ != "auto"@,
        "none"@ != "adaptive"@,
{
    reveal_strlit("disabled");
    reveal_strlit("none");
    reveal_strlit("auto");
    reveal_strlit("adaptive");
    assert("disabled"@[0] == 'd' && "none"@[0] == 'n');
    assert("auto"@[0] == 'a' && "adaptive"@[0] == 'a');
}

/// What is accepted of a request: its model, its stream flag, all its messages without their
/// markers, and its fields but for those that the API rejects.
pub proof fn requests_lose_what_is_rejected_only(request: CompletionRequestView, key: Seq<char>)
    ensures
        ({
            let accepted = accepted_request(request);
            &&& accepted.model == request.model
            &&& accepted.stream == request.stream
            &&& are_messages_without_markers(request.messages, accepted.messages)
            &&& is_unknown_to_the_api(key) ==> !accepted.extra.dom().contains(key)
            &&& !is_unknown_to_the_api(key) && key != "thinking"@
                ==> accepted.extra.dom().contains(key) == request.extra.dom().contains(key) && (
            request.extra.dom().contains(key) ==> accepted.extra[key] == request.extra[key])
            &&& is_thinking_for(request.extra, accepted.extra)
        }),
{
    lemma_thinking_is_known();
    let kept = request.extra.remove_keys(rejected_fields());
    thinking_settings_are_replaced(kept, key);
    let accepted = accepted_request(request);
    assert forall|i: int| 0 <= i < request.messages.len() implies is_message_without_marker(
        request.messages[i],
        #[trigger] accepted.messages[i],
    ) by {
        assert(accepted.messages[i] == unmarked_message(request.messages[i]));
    }
    assert(kept.dom().contains("thinking"@) == request.extra.dom().contains("thinking"@));
}

/// The thinking setting is no field that the API rejects.
proof fn lemma_thinking_is_known()
    ensures
        !is_unknown_to_the_api("thinking"@),
        !is_unknown_to_the_api("model"@),
        !is_unknown_to_the_api("messages"@),
        !is_unknown_to_the_api("stream"@),
        "thinking"@ != "model"@,
        "thinking"@ != "messages"@,
        "thinking"@ != "stream"@,
{
    reveal_strlit("thinking");
    reveal_strlit("model");
    reveal_strlit("messages");
    reveal_strlit("stream");
    reveal_strlit("stream_options");
    reveal_strlit("temperature");
    reveal_strlit("top_p");
    reveal_strlit("n");
    reveal_strlit("reasoning_effort");
    reveal_strlit("reasoning");
    reveal_strlit("think");
    reveal_strlit("thinking_config");
    assert("thinking"@.len() == 8 && "model"@.len() == 5 && "messages"@.len() == 8);
    assert("stream"@.len() == 6 && "stream_options"@.len() == 14 && "temperature"@.len() == 11);
    assert("top_p"@.len() == 5 && "n"@.len() == 1 && "reasoning_effort"@.len() == 16);
    assert("reasoning"@.len() == 9 && "think"@.len() == 5 && "thinking_config"@.len() == 15);
    assert("model"@[0] == 'm' && "top_p"@[0] == 't' && "think"@[0] == 't');
    assert("thinking"@[0] == 't' && "messages"@[0] == 'm');
}

/// Whether a JSON object is the body that stands for a request: with every field that the API
/// accepts, and with every message.
pub open spec fn stands_for(request: CompletionRequestView, sent: Map<Seq<char>, JsonView>) -> bool {
    &&& sent.dom().contains("model"@) && sent["model"@] == if request.extra.dom().contains(
        "model"@,
    ) {
        request.extra["model"@]
    } else {
        JsonView::Text(request.model)
    }
    &&& sent.dom().contains("stream"@) && sent["stream"@] == if request.extra.dom().contains(
        "stream"@,
    ) {
        request.extra["stream"@]
    } else {
        JsonView::Bool(request.stream)
    }
    &&& sent.dom().contains("messages"@) && if request.extra.dom().contains("messages"@) {
        sent["messages"@] == request.extra["messages"@]
    } else {
        sent["messages"@] matches JsonView::Array(list) && are_messages_without_markers(
            request.messages,
            list,
        )
    }
    &&& is_thinking_for(request.extra, sent)
    &&& forall|key: Seq<char>|
        is_unknown_to_the_api(key) ==> !#[trigger] sent.dom().contains(key)
    &&& forall|key: Seq<char>|
        !is_unknown_to_the_api(key) && key != "thinking"@ && key != "model"@ && key != "messages"@
            && key != "stream"@ ==> #[trigger] sent.dom().contains(key)
            == request.extra.dom().contains(key) && (request.extra.dom().contains(key)
            ==> sent[key] == request.extra[key])
}

/// Whether a number is one, as an integer or in floating point.
pub open spec fn is_the_number_one(value: JsonView) -> bool {
    value matches JsonView::Number(number) && (number_as_u64(number) == Some(1u64) || number_text(
        number,
    ) == "1.0"@)
}

/// Whether a body asks for thinking: its member `thinking` is an object that says so under `type`,
/// whatever else it holds.
pub open spec fn asks_for_thinking(members: Map<Seq<char>, JsonView>) -> bool {
    &&& members.dom().contains("thinking"@)
    &&& members["thinking"@] matches JsonView::Object(setting) && setting.dom().contains("type"@)
        && (setting["type"@] == JsonView::Text("enabled"@) || setting["type"@] == JsonView::Text(
        "adaptive"@,
    ))
}

/// Whether `out` is a body whose temperature has been forced to one where it asks for thinking.
pub open spec fn is_with_forced_temperature(body: JsonView, out: JsonView) -> bool {
    match body {
        JsonView::Object(members) => if asks_for_thinking(members) && members.dom().contains(
            "temperature"@,
        ) && !is_the_number_one(members["temperature"@]) {
            &&& out matches JsonView::Object(changed)
            &&& changed.dom() == members.dom()
            &&& changed["temperature"@] == JsonView::Number(integer_number(1))
            &&& forall|key: Seq<char>|
                key != "temperature"@ && members.dom().contains(key) ==> #[trigger] changed[key]
                    == members[key]
        } else {
            out == body
        },
        _ => out == body,
    }
}

/// The temperature is forced to one exactly where the body asks for thinking, whatever else the
/// setting holds; every other body, and every other member, stays as it is.
pub proof fn the_temperature_is_forced_while_thinking(body: JsonView)
    ensures
        is_with_forced_temperature(body, fitting_temperature(body)),
        temperature_fits(body) <==> (body matches JsonView::Object(members) && asks_for_thinking(
            members,
        ) && members.dom().contains("temperature"@) ==> is_the_number_one(
            body->Object_0["temperature"@],
        )),
{
    match body {
        JsonView::Object(members) => {
            if asks_for_thinking(members) && members.dom().contains("temperature"@)
                && !is_the_number_one(members["temperature"@]) {
                assert(fitting_temperature(body)->Object_0.dom() =~= members.dom());
            }
        },
        _ => {},
    }
}

/// Whether an outcome is the body that the translator makes of a JSON object, read back and with
/// its temperature forced, or the error that came on the way.
pub open spec fn is_translation(
    sent: Map<Seq<char>, JsonView>,
    outcome: Result<JsonView, Seq<char>>,
) -> bool {
    match canonical_request(JsonView::Object(sent)) {
        Err(text) => outcome == Err::<JsonView, Seq<char>>(text),
        Ok(canonical) => match translated_body(canonical) {
            Err(text) => outcome == Err::<JsonView, Seq<char>>(text),
            Ok(bytes) => match slice_json(bytes) {
                Err(text) => outcome == Err::<JsonView, Seq<char>>(text),
                Ok(body) => outcome matches Ok(out) && is_with_forced_temperature(body, out),
            },
        },
    }
}

/// The body of a prepared request is the translation of the whole request: what is given to the
/// translator has every field that the API accepts and all messages, in order.
pub proof fn the_whole_request_is_translated(request: CompletionRequestView)
    ensures
        exists|sent: Map<Seq<char>, JsonView>| #[trigger]
            stands_for(request, sent) && is_translation(sent, prepared_body(request)),
{
    let accepted = accepted_request(request);
    let sent = request_body(accepted);
    lemma_thinking_is_known();
    lemma_own_names();
    assert forall|key: Seq<char>| true implies {
        &&& is_unknown_to_the_api(key) ==> !#[trigger] sent.dom().contains(key)
        &&& !is_unknown_to_the_api(key) && key != "thinking"@ && key != "model"@ && key
            != "messages"@ && key != "stream"@ ==> sent.dom().contains(key)
            == request.extra.dom().contains(key) && (request.extra.dom().contains(key)
            ==> sent[key] == request.extra[key])
    } by {
        requests_lose_what_is_rejected_only(request, key);
        bodies_hold_every_field(accepted, key);
    }
    requests_lose_what_is_rejected_only(request, "model"@);
    requests_lose_what_is_rejected_only(request, "messages"@);
    requests_lose_what_is_rejected_only(request, "stream"@);
    bodies_hold_every_field(accepted, "model"@);
    bodies_hold_every_field(accepted, "messages"@);
    bodies_hold_every_field(accepted, "stream"@);
    bodies_hold_every_field(accepted, "thinking"@);
    assert(stands_for(request, sent));
    match canonical_request(JsonView::Object(sent)) {
        Ok(canonical) => match translated_body(canonical) {
            Ok(bytes) => match slice_json(bytes) {
                Ok(body) => {
                    the_temperature_is_forced_while_thinking(body);
                },
                Err(_) => {},
            },
            Err(_) => {},
        },
        Err(_) => {},
    }
}

/// Two requests that have the same number of messages, agree on every member of each but the
/// markers, and agree on everything else, are sent with the same body.
pub proof fn markers_change_no_body(a: CompletionRequestView, b: CompletionRequestView)
    requires
        a.model == b.model,
        a.stream == b.stream,
        a.extra == b.extra,
        a.messages.len() == b.messages.len(),
        forall|i: int|
            0 <= i < a.messages.len() ==> is_message_without_marker(
                #[trigger] a.messages[i],
                b.messages[i],
            ),
    ensures
        prepared_body(a) == prepared_body(b),
{
    let x = accepted_request(a);
    let y = accepted_request(b);
    assert forall|i: int| 0 <= i < a.messages.len() implies x.messages[i] == y.messages[i] by {
        assert(is_message_without_marker(a.messages[i], b.messages[i]));
        match (a.messages[i], b.messages[i]) {
            (JsonView::Object(g), JsonView::Object(s)) => {
                assert forall|key: Seq<char>| g.remove("cache_control"@).dom().contains(
                    key,
                ) == s.remove("cache_control"@).dom().contains(key) by {
                    assert(s.dom().contains(key) || !s.dom().contains(key));
                }
                assert(g.remove("cache_control"@) =~= s.remove("cache_control"@)) by {
                    assert forall|key: Seq<char>| g.remove("cache_control"@).dom().contains(
                        key,
                    ) implies g.remove("cache_control"@)[key] == s.remove(
                        "cache_control"@,
                    )[key] by {
                        assert(s.dom().contains(key));
                    }
                }
            },
            _ => {},
        }
    }
    assert(x.messages =~= y.messages);
}

// Credentials and cloaking.

/// A credential, a cloaking set-up, a cloaking and an error hold what their fields hold.
pub proof fn records_hold_their_fields(
    credential: Credential,
    config: CloakConfig,
    cloaking: Cloaking,
    error: ByokError,
)
    ensures
        credential@ == match credential {
            Credential::ApiKey(key) => CredentialView::ApiKey(key@),
            Credential::Bearer(token) => CredentialView::Bearer(token@),
        },
        config@.enabled == config.enabled,
        config@.strict_mode == config.strict_mode,
        config@.sensitive_words.len() == config.sensitive_words@.len(),
        forall|i: int|
            0 <= i < config.sensitive_words@.len() ==> #[trigger] config@.sensitive_words[i]
                == config.sensitive_words@[i]@,
        cloaking@.config == cloaking.config@,
        cloaking@.device_id == cloaking.device_id@,
        cloaking@.account_uuid == cloaking.account_uuid@,
        cloaking@.session_id == cloaking.session_id@,
        cloaking@.entrypoint == cloaking.entrypoint@,
        error@ == match error {
            ByokError::Config(text) => ByokErrorView::Config(text@),
            ByokError::Translation(text) => ByokErrorView::Translation(text@),
        },
{
}

/// An optional value is there exactly where its model is.
pub proof fn options_hold_their_values<T: View>(value: Option<T>)
    ensures
        match value {
            Some(inner) => option_view(value) == Some(inner@),
            None => option_view(value) is None,
        },
{
}

/// An API key has a scope of its own, which is the key behind `api_key:`; all OAuth tokens have the
/// scope `global`.
pub proof fn scopes_name_the_key(key: Seq<char>, token: Seq<char>)
    ensures
        scope_of(CredentialView::ApiKey(key)) == "api_key:"@ + key,
        scope_of(CredentialView::Bearer(token)) == "global"@,
{
}

/// The words that are hidden for OAuth tokens where nothing is configured.
pub open spec fn are_default_words(words: Seq<Seq<char>>) -> bool {
    words.len() == 2 && words[0] == "OpenCode"@ && words[1] == "opencode"@
}

/// The cloaking of a request: a configured set-up that is enabled is applied as it is, for either
/// credential; otherwise an OAuth token gets the default set-up and an API key none. It names the
/// device and the session of the profile, the account of the credential's scope, and the entry
/// point `cli`.
pub proof fn cloaking_is_as_configured(
    configured: Option<CloakConfigView>,
    credential: CredentialView,
    profile: DeviceProfile,
)
    ensures
        ({
            let cloaking = applied_cloaking(configured, credential, profile);
            &&& match configured {
                Some(config) if config.enabled => cloaking is Some && cloaking->Some_0.config
                    == config,
                _ => match credential {
                    CredentialView::ApiKey(_) => cloaking is None,
                    CredentialView::Bearer(_) => cloaking is Some
                        && cloaking->Some_0.config.enabled && cloaking->Some_0.config.strict_mode
                        && are_default_words(cloaking->Some_0.config.sensitive_words),
                },
            }
            &&& cloaking matches Some(applied) ==> {
                &&& applied.device_id == profile.device_id@
                &&& applied.session_id == profile.session_id@
                &&& applied.entrypoint == "cli"@
                &&& applied.account_uuid == match credential {
                    CredentialView::ApiKey(key) => oid_uuid(encode_utf8("api_key:"@ + key)),
                    CredentialView::Bearer(_) => oid_uuid(encode_utf8("global"@)),
                }
            }
        }),
{
}

/// Settings hold what their fields hold.
pub proof fn settings_hold_their_fields(settings: TransportSettings)
    ensures
        settings@.secret == settings.secret@,
        settings@.auth_mode == settings.auth_mode,
        settings@.base_url == settings.base_url@,
        settings@.version == settings.version@,
        settings@.beta == settings.beta@,
{
}

// Texts.

/// Trimming the end leaves a beginning of the text, drops characters of the set only, and drops
/// all of them that stand at the end.
pub proof fn trimming_drops_the_end(text: Seq<char>, set: Set<char>, tail: Seq<char>)
    requires
        forall|i: int| 0 <= i < tail.len() ==> set.contains(#[trigger] tail[i]),
        text.len() > 0 ==> !set.contains(text.last()),
    ensures
        trim_end(text + tail, set) == text,
    decreases tail.len(),
{
    if tail.len() == 0 {
        assert(text + tail =~= text);
    } else {
        assert((text + tail).last() == tail[tail.len() - 1]);
        assert((text + tail).drop_last() =~= text + tail.drop_last());
        assert forall|i: int| 0 <= i < tail.drop_last().len() implies set.contains(
            #[trigger] tail.drop_last()[i],
        ) by {
            assert(tail.drop_last()[i] == tail[i]);
        }
        trimming_drops_the_end(text, set, tail.drop_last());
    }
}

/// Trimming the start does the same from the other end.
pub proof fn trimming_drops_the_start(head: Seq<char>, text: Seq<char>, set: Set<char>)
    requires
        forall|i: int| 0 <= i < head.len() ==> set.contains(#[trigger] head[i]),
        text.len() > 0 ==> !set.contains(text.first()),
    ensures
        trim_start(head + text, set) == text,
    decreases head.len(),
{
    if head.len() == 0 {
        assert(head + text =~= text);
    } else {
        assert((head + text).first() == head[0]);
        assert((head + text).drop_first() =~= head.drop_first() + text);
        assert forall|i: int| 0 <= i < head.drop_first().len() implies set.contains(
            #[trigger] head.drop_first()[i],
        ) by {
            assert(head.drop_first()[i] == head[i + 1]);
        }
        trimming_drops_the_start(head.drop_first(), text, set);
    }
}

/// A text that begins and ends in no white space is what trimming leaves of it between white space.
pub proof fn trimming_drops_white_space(head: Seq<char>, text: Seq<char>, tail: Seq<char>)
    requires
        forall|i: int| 0 <= i < head.len() ==> is_space(#[trigger] head[i]),
        forall|i: int| 0 <= i < tail.len() ==> is_space(#[trigger] tail[i]),
        text.len() > 0,
        !is_space(text.first()),
        !is_space(text.last()),
    ensures
        trim(head + text + tail) == text,
        trim(head + tail) == Seq::<char>::empty(),
{
    assert(head + text + tail =~= head + (text + tail));
    trimming_drops_the_start(head, text + tail, white_space());
    trimming_drops_the_end(text, white_space(), tail);
    let all = head + tail;
    assert forall|i: int| 0 <= i < all.len() implies white_space().contains(#[trigger] all[i]) by {
        if i < head.len() {
            assert(all[i] == head[i]);
        } else {
            assert(all[i] == tail[i - head.len()]);
        }
    }
    assert(all + Seq::<char>::empty() =~= all);
    trimming_drops_the_start(all, Seq::empty(), white_space());
}

/// Whether a character is white space, by its code point.
pub open spec fn is_space(c: char) -> bool {
    let code = c as int;
    ||| 0x09 <= code <= 0x0d
    ||| code == 0x20
    ||| code == 0x85
    ||| code == 0xa0
    ||| code == 0x1680
    ||| 0x2000 <= code <= 0x200a
    ||| code == 0x2028
    ||| code == 0x2029
    ||| code == 0x202f
    ||| code == 0x205f
    ||| code == 0x3000
}

/// A text begins with another where it is that text with something behind it.
pub proof fn beginnings_come_first(text: Seq<char>, prefix: Seq<char>)
    ensures
        starts_with(text, prefix) <==> exists|rest: Seq<char>| text == #[trigger] (prefix + rest),
{
    if starts_with(text, prefix) {
        assert(text =~= prefix + text.skip(prefix.len() as int));
    }
    if exists|rest: Seq<char>| text == #[trigger] (prefix + rest) {
        assert(text.take(prefix.len() as int) =~= prefix);
    }
}

/// Bytes are decoded as UTF-8 where they are, an ASCII byte at the end as itself, and what is
/// neither as `String::from_utf8_lossy` does.
pub proof fn bytes_are_decoded(bytes: Seq<u8>, byte: u8)
    ensures
        byte < 128 ==> decoded_text(bytes.push(byte)) == decoded_text(bytes).push(byte as char),
        valid_utf8(bytes) ==> decoded_text(bytes) == decode_utf8(bytes),
        !valid_utf8(bytes) && bytes.len() > 0 && bytes.last() >= 128 ==> decoded_text(bytes)
            == lossy_text(bytes),
{
    assert(bytes.push(byte).drop_last() =~= bytes);
    if valid_utf8(bytes) {
        lemma_decoded_utf8(bytes);
    }
}

// Headers.

/// Whether a text can be sent as a header value: no control character but the tab.
pub open spec fn has_no_control(text: Seq<char>) -> bool {
    forall|i: int|
        0 <= i < text.len() ==> (#[trigger] text[i]) as int == 9 || ((text[i] as int) >= 32 && (
        text[i] as int) != 127)
}

/// A profile can be sent exactly where the six of its texts that are sent have no control
/// character but the tab.
pub proof fn profiles_without_control_characters_can_be_sent(profile: DeviceProfile)
    ensures
        is_sendable(profile) <==> has_no_control(profile.user_agent@) && has_no_control(
            profile.session_id@,
        ) && has_no_control(profile.runtime_version@) && has_no_control(profile.package_version@)
            && has_no_control(profile.os@) && has_no_control(profile.arch@),
{
    lemma_header_text(profile.user_agent@);
    lemma_header_text(profile.session_id@);
    lemma_header_text(profile.runtime_version@);
    lemma_header_text(profile.package_version@);
    lemma_header_text(profile.os@);
    lemma_header_text(profile.arch@);
}

/// The two ways to say what a header text is agree.
proof fn lemma_header_text(text: Seq<char>)
    ensures
        is_header_text(text) <==> has_no_control(text),
{
    if is_header_text(text) {
        assert forall|i: int| 0 <= i < text.len() implies (#[trigger] text[i]) as int == 9 || ((
        text[i] as int) >= 32 && (text[i] as int) != 127) by {}
    }
    if has_no_control(text) {
        assert forall|i: int| 0 <= i < text.len() implies #[trigger] text[i] == '\t' || ('\u{20}'
            <= text[i] && text[i] != '\u{7f}') by {
            assert(text[i] as int == 9 || ((text[i] as int) >= 32 && (text[i] as int) != 127));
        }
    }
}

/// What the thirteen headers of a client say, whatever its profile.
pub proof fn headers_say_what_the_client_is(
    program: Seq<char>,
    profile: DeviceProfile,
    request_id: Seq<char>,
)
    requires
        is_program_name(program),
    ensures
        ({
            let h = fingerprint_headers(program, profile, request_id);
            &&& h["anthropic-dangerous-direct-browser-access"@] == seq![encode_utf8("true"@)]
            &&& h["x-app"@] == seq![encode_utf8("cli"@)]
            &&& h["user-agent"@] == seq![encode_utf8(profile.user_agent@)]
            &&& h["x-"@ + program + "-code-session-id"@] == seq![encode_utf8(profile.session_id@)]
            &&& h["x-stainless-lang"@] == seq![encode_utf8("js"@)]
            &&& h["x-stainless-runtime"@] == seq![encode_utf8("node"@)]
            &&& h["x-stainless-runtime-version"@] == seq![encode_utf8(profile.runtime_version@)]
            &&& h["x-stainless-package-version"@] == seq![encode_utf8(profile.package_version@)]
            &&& h["x-stainless-os"@] == seq![encode_utf8(profile.os@)]
            &&& h["x-stainless-arch"@] == seq![encode_utf8(profile.arch@)]
            &&& h["x-stainless-retry-count"@] == seq![encode_utf8("0"@)]
            &&& h["x-stainless-timeout"@] == seq![encode_utf8("600"@)]
            &&& h["x-client-request-id"@] == seq![encode_utf8(request_id)]
            &&& forall|name: Seq<char>| #[trigger]
                h.dom().contains(name) <==> (name == "anthropic-dangerous-direct-browser-access"@
                    || name == "x-app"@ || name == "user-agent"@ || name == "x-"@ + program
                    + "-code-session-id"@ || name == "x-stainless-lang"@ || name
                    == "x-stainless-runtime"@ || name == "x-stainless-runtime-version"@ || name
                    == "x-stainless-package-version"@ || name == "x-stainless-os"@ || name
                    == "x-stainless-arch"@ || name == "x-stainless-retry-count"@ || name
                    == "x-stainless-timeout"@ || name == "x-client-request-id"@)
        }),
{
    lemma_client_names(program);
    let n = client_names(program);
    assert(n[0] == "anthropic-dangerous-direct-browser-access"@ && n[1] == "x-app"@);
    assert(n[2] == "user-agent"@ && n[3] == "x-"@ + program + "-code-session-id"@);
    assert(n[4] == "x-stainless-lang"@ && n[5] == "x-stainless-runtime"@);
    assert(n[6] == "x-stainless-runtime-version"@ && n[7] == "x-stainless-package-version"@);
    assert(n[8] == "x-stainless-os"@ && n[9] == "x-stainless-arch"@);
    assert(n[10] == "x-stainless-retry-count"@ && n[11] == "x-stainless-timeout"@);
    assert(n[12] == "x-client-request-id"@);
    assert forall|i: int, j: int| 0 <= i < j < 13 implies n[i] != n[j] by {}
}

/// The values under a name are those of the map, and none where the name is not there; one value
/// is the encoding of its text.
pub proof fn values_are_those_under_the_name(
    contents: Map<Seq<char>, Seq<Seq<u8>>>,
    name: Seq<char>,
    text: Seq<char>,
)
    ensures
        contents.dom().contains(name) ==> values_under(contents, name) == contents[name],
        !contents.dom().contains(name) ==> values_under(contents, name).len() == 0,
        one_value(text) == seq![encode_utf8(text)],
{
}

/// The text of a header value is there exactly where each byte is a tab or a visible ASCII
/// character, and has these characters.
pub proof fn header_values_of_visible_bytes_have_a_text(bytes: Seq<u8>)
    ensures
        visible_text(bytes) is Some <==> forall|i: int|
            0 <= i < bytes.len() ==> #[trigger] bytes[i] == 0x09 || 0x20 <= bytes[i] <= 0x7e,
        visible_text(bytes) matches Some(text) ==> text.len() == bytes.len() && forall|i: int|
            0 <= i < bytes.len() ==> (#[trigger] text[i]) as int == bytes[i],
{
    if visible_text(bytes) is Some {
        let text = visible_text(bytes)->Some_0;
        assert forall|i: int| 0 <= i < bytes.len() implies #[trigger] bytes[i] == 0x09 || 0x20
            <= bytes[i] <= 0x7e by {
            assert(is_visible_byte(bytes[i]));
        }
        assert forall|i: int| 0 <= i < bytes.len() implies (#[trigger] text[i]) as int
            == bytes[i] by {
            assert(text[i] == bytes[i] as char);
            assert(is_visible_byte(bytes[i]));
        }
    }
}

/// Each header value with a text gives that text, in order, and the others give none.
pub proof fn header_values_give_their_texts(values: Seq<Seq<u8>>, value: Seq<u8>)
    ensures
        visible_texts(Seq::<Seq<u8>>::empty()).len() == 0,
        visible_text(value) matches Some(text) ==> visible_texts(values.push(value))
            == visible_texts(values).push(text),
        visible_text(value) is None ==> visible_texts(values.push(value)) == visible_texts(values),
{
    assert(values.push(value).drop_last() =~= values);
}

/// A list gives under a name the values and the texts that stand in it under that name, in order.
pub proof fn lists_give_what_stands_under_the_name(
    bytes: Seq<(String, Vec<u8>)>,
    one: (String, Vec<u8>),
    texts: Seq<(String, String)>,
    other: (String, String),
    name: Seq<char>,
)
    ensures
        listed_bytes(Seq::<(String, Vec<u8>)>::empty(), name).len() == 0,
        one.0@ == name ==> listed_bytes(bytes.push(one), name) == listed_bytes(bytes, name).push(
            one.1@,
        ),
        one.0@ != name ==> listed_bytes(bytes.push(one), name) == listed_bytes(bytes, name),
        listed_texts(Seq::<(String, String)>::empty(), name).len() == 0,
        other.0@ == name ==> listed_texts(texts.push(other), name) == listed_texts(
            texts,
            name,
        ).push(other.1@),
        other.0@ != name ==> listed_texts(texts.push(other), name) == listed_texts(texts, name),
{
    assert(bytes.push(one).drop_last() =~= bytes);
    assert(texts.push(other).drop_last() =~= texts);
}

/// The texts that are made with the name of the program, and the fixed ones.
pub proof fn texts_of_the_program(program: Seq<char>, parts: Seq<Seq<char>>, part: Seq<char>)
    ensures
        is_program_name(program) <==> 1 <= program.len() <= 32 && forall|i: int|
            0 <= i < program.len() ==> 97 <= (#[trigger] program[i]) as int <= 122,
        session_header(program) == "x-"@ + program + "-code-session-id"@,
        beta_flags(program) == seq![
            program + "-code-20250219"@,
            "oauth-2025-04-20"@,
            "interleaved-thinking-2025-05-14"@,
            "thinking-token-count-2026-05-13"@,
            "context-management-2025-06-27"@,
            "prompt-caching-scope-2026-01-05"@,
            "mid-conversation-system-2026-04-07"@,
            "advisor-tool-2026-03-01"@,
            "effort-2025-11-24"@,
            "fallback-credit-2026-06-01"@,
            "extended-cache-ttl-2025-04-11"@,
        ],
        joined(seq![part]) == part,
        parts.len() > 0 ==> joined(parts.push(part)) == joined(parts) + ","@ + part,
        ANTHROPIC_VERSION@ == "2023-06-01"@,
        SDK_PACKAGE_VERSION@ == "0.94.0"@,
        RUNTIME_VERSION@ == "v24.3.0"@,
        DEFAULT_BASE_URL@ == "https://api.anthropic.com"@,
{
    assert(parts.push(part).drop_last() =~= parts);
    if is_program_name(program) {
        assert forall|i: int| 0 <= i < program.len() implies 97 <= (
        #[trigger] program[i]) as int <= 122 by {}
    }
    if 1 <= program.len() <= 32 && forall|i: int|
        0 <= i < program.len() ==> 97 <= (#[trigger] program[i]) as int <= 122 {
        assert forall|i: int| 0 <= i < program.len() implies 'a' <= #[trigger] program[i]
            <= 'z' by {
            assert(97 <= program[i] as int <= 122);
        }
    }
}

// Prepared requests.

/// The secret that a credential is, without the white space round it.
pub open spec fn bare_secret(credential: CredentialView) -> Seq<char> {
    match credential {
        CredentialView::ApiKey(key) => trim(key),
        CredentialView::Bearer(token) => trim(token),
    }
}

/// Why no transport can be made of a credential and a base URL, if that is so.
pub open spec fn is_refused(
    credential: CredentialView,
    base_url: Seq<char>,
    text: Seq<char>,
) -> bool {
    let secret = bare_secret(credential);
    let url = trim_end(trim(base_url), set!['/']);
    let is_http = starts_with(url, "http://"@) || starts_with(url, "https://"@);
    ||| secret.len() == 0 && text == "api_key is required"@
    ||| secret.len() > 0 && url.len() == 0 && text == "base_url is required"@
    ||| secret.len() > 0 && url.len() > 0 && !is_http && text == "invalid base_url: "@ + url
    ||| secret.len() > 0 && url.len() > 0 && is_http && !has_no_control(secret) && text
        == "api_key contains invalid header characters"@
}

/// A transport goes to the base URL with the headers of the client, and with those for the content,
/// the version, the beta features and the credential: a key as it is in `x-api-key`, a token behind
/// `Bearer` in `authorization`. Where it cannot be made, the error says why.
pub proof fn transports_hold_what_they_are_made_of(
    program: Seq<char>,
    base_url: Seq<char>,
    credential: CredentialView,
    profile: DeviceProfile,
    request_id: Seq<char>,
)
    requires
        is_program_name(program),
    ensures
        match executor_transport(program, base_url, credential, profile, request_id) {
            Err(text) => is_refused(credential, base_url, text),
            Ok(transport) => {
                let client = fingerprint_headers(program, profile, request_id);
                let secret = bare_secret(credential);
                let h = transport.headers;
                &&& !exists|text: Seq<char>| is_refused(credential, base_url, text)
                &&& transport.base_url == trim_end(trim(base_url), set!['/'])
                &&& h["content-type"@] == seq![encode_utf8("application/json"@)]
                &&& h["anthropic-version"@] == seq![encode_utf8("2023-06-01"@)]
                &&& h["anthropic-beta"@] == seq![encode_utf8(joined(beta_flags(program)))]
                &&& credential is ApiKey ==> h["x-api-key"@] == seq![encode_utf8(secret)]
                &&& credential is Bearer ==> h["authorization"@] == seq![
                    encode_utf8("Bearer "@ + secret),
                ]
                &&& forall|name: Seq<char>|
                    client.dom().contains(name) ==> #[trigger] h[name] == client[name]
                &&& forall|name: Seq<char>| #[trigger]
                    h.dom().contains(name) <==> (client.dom().contains(name) || name
                        == "content-type"@ || name == "anthropic-version"@ || name
                        == "anthropic-beta"@ || (credential is ApiKey && name == "x-api-key"@) || (
                    credential is Bearer && name == "authorization"@))
            },
        },
{
    lemma_fixed_values(program);
    lemma_transport_names();
    lemma_header_text(bare_secret(credential));
    thirteen_headers_identify_the_client(program, profile, request_id);
    let client = fingerprint_headers(program, profile, request_id);
    assert(transport_names().contains("x-api-key"@));
    assert(transport_names().contains("authorization"@));
    assert(transport_names().contains("content-type"@));
    assert(transport_names().contains("anthropic-version"@));
    assert(transport_names().contains("anthropic-beta"@));
    assert(!client.dom().contains("x-api-key"@) && !client.dom().contains("authorization"@));
    assert(!client.dom().contains("content-type"@));
    assert(!client.dom().contains("anthropic-version"@));
    assert(!client.dom().contains("anthropic-beta"@));
    match executor_transport(program, base_url, credential, profile, request_id) {
        Ok(_) => {
            assert forall|text: Seq<char>| !is_refused(credential, base_url, text) by {}
        },
        Err(_) => {},
    }
}

/// Whether a list gives one header with this text under a name, if the text can be seen.
pub open spec fn sends(list: Seq<(String, String)>, name: Seq<char>, text: Seq<char>) -> bool {
    listed_texts(list, name) == visible_texts(seq![encode_utf8(text)])
}

/// Whether a request is prepared from the whole of what is given: it goes to the messages endpoint
/// of the base URL, with the headers of client and credential, with the translation of the whole
/// request as its body, and with the flags and the cloaking that credential and configuration ask
/// for. It fails only where the settings are refused or the translation fails, and the error says
/// which.
pub open spec fn is_prepared_whole(
    executor: ClaudeExecutor,
    credential: CredentialView,
    profile: DeviceProfile,
    request: CompletionRequestView,
    request_id: Seq<char>,
    prepared: Result<PreparedRequest, ByokError>,
) -> bool {
    match prepared {
        Ok(out) => {
            let program = executor.program@;
            let secret = bare_secret(credential);
            let list = out.headers@;
            &&& !exists|text: Seq<char>| is_refused(credential, executor.base_url@, text)
            &&& exists|sent: Map<Seq<char>, JsonView>| #[trigger]
                stands_for(request, sent) && is_translation(
                    sent,
                    Ok::<JsonView, Seq<char>>(out.body@),
                )
            &&& out.url@ == trim_end(trim(executor.base_url@), set!['/']) + "/v1/messages"@
                + "?beta=true"@
            &&& out.stream == request.stream
            &&& out.remap_tools == (credential is Bearer)
            &&& match executor.cloak_config {
                Some(config) if config.enabled => out.cloaking is Some
                    && out.cloaking->Some_0.config@ == config@,
                _ => match credential {
                    CredentialView::ApiKey(_) => out.cloaking is None,
                    CredentialView::Bearer(_) => out.cloaking is Some
                        && out.cloaking->Some_0.config.enabled
                        && out.cloaking->Some_0.config.strict_mode && are_default_words(
                        out.cloaking->Some_0.config@.sensitive_words,
                    ),
                },
            }
            &&& out.cloaking matches Some(cloaking) ==> {
                &&& cloaking.device_id@ == profile.device_id@
                &&& cloaking.session_id@ == profile.session_id@
                &&& cloaking.entrypoint@ == "cli"@
                &&& cloaking.account_uuid@ == match credential {
                    CredentialView::ApiKey(key) => oid_uuid(encode_utf8("api_key:"@ + key)),
                    CredentialView::Bearer(_) => oid_uuid(encode_utf8("global"@)),
                }
            }
            &&& sends(list, "content-type"@, "application/json"@)
            &&& sends(list, "anthropic-version"@, "2023-06-01"@)
            &&& sends(list, "anthropic-beta"@, joined(beta_flags(program)))
            &&& credential is ApiKey ==> sends(list, "x-api-key"@, secret)
            &&& credential is Bearer ==> sends(list, "authorization"@, "Bearer "@ + secret)
            &&& sends(list, "anthropic-dangerous-direct-browser-access"@, "true"@)
            &&& sends(list, "x-app"@, "cli"@)
            &&& sends(list, "user-agent"@, profile.user_agent@)
            &&& sends(list, "x-"@ + program + "-code-session-id"@, profile.session_id@)
            &&& sends(list, "x-stainless-lang"@, "js"@)
            &&& sends(list, "x-stainless-runtime"@, "node"@)
            &&& sends(list, "x-stainless-runtime-version"@, profile.runtime_version@)
            &&& sends(list, "x-stainless-package-version"@, profile.package_version@)
            &&& sends(list, "x-stainless-os"@, profile.os@)
            &&& sends(list, "x-stainless-arch"@, profile.arch@)
            &&& sends(list, "x-stainless-retry-count"@, "0"@)
            &&& sends(list, "x-stainless-timeout"@, "600"@)
            &&& sends(list, "x-client-request-id"@, request_id)
            &&& listed_texts(list, "accept-encoding"@) == seq!["identity"@]
            &&& credential is ApiKey ==> listed_texts(list, "authorization"@).len() == 0
            &&& credential is Bearer ==> listed_texts(list, "x-api-key"@).len() == 0
        },
        Err(ByokError::Config(text)) => is_refused(credential, executor.base_url@, text@),
        Err(ByokError::Translation(text)) => {
            &&& !exists|refusal: Seq<char>|
                is_refused(credential, executor.base_url@, refusal)
            &&& exists|sent: Map<Seq<char>, JsonView>| #[trigger]
                stands_for(request, sent) && is_translation(
                    sent,
                    Err::<JsonView, Seq<char>>(text@),
                )
        },
    }
}

/// Requests are prepared from the whole of what is given.
pub proof fn requests_are_prepared_whole(
    executor: ClaudeExecutor,
    credential: CredentialView,
    profile: DeviceProfile,
    request: CompletionRequestView,
    request_id: Seq<char>,
    prepared: Result<PreparedRequest, ByokError>,
)
    requires
        is_program_name(executor.program@),
        is_prepared(executor, credential, profile, request, request_id, prepared),
    ensures
        is_prepared_whole(executor, credential, profile, request, request_id, prepared),
{
    let program = executor.program@;
    the_whole_request_is_translated(request);
    transports_hold_what_they_are_made_of(
        program,
        executor.base_url@,
        credential,
        profile,
        request_id,
    );
    cloaking_is_as_configured(option_view(executor.cloak_config), credential, profile);
    headers_say_what_the_client_is(program, profile, request_id);
    lemma_accept_encoding(program);
    match prepared {
        Ok(out) => {
            let transport = executor_transport(
                program,
                executor.base_url@,
                credential,
                profile,
                request_id,
            )->Ok_0;
            let h = transport.headers;
            let list = out.headers@;
            let client = fingerprint_headers(program, profile, request_id);
            assert forall|name: Seq<char>|
                h.dom().contains(name) && name != "accept-encoding"@ implies #[trigger] listed_texts(
                list,
                name,
            ) == visible_texts(h[name]) by {
                assert(visible_texts(h[name]) + Seq::<Seq<char>>::empty() =~= visible_texts(
                    h[name],
                ));
            }
            assert forall|name: Seq<char>|
                !h.dom().contains(name) && name != "accept-encoding"@ implies #[trigger] listed_texts(
                list,
                name,
            ).len() == 0 by {
                assert(visible_texts(values_under(h, name)).len() == 0);
            }
            assert(!h.dom().contains("accept-encoding"@));
            assert(listed_texts(list, "accept-encoding"@) =~= seq!["identity"@]);
            assert(client.dom().contains("x-app"@));
            assert(client.dom().contains("anthropic-dangerous-direct-browser-access"@));
            assert(client.dom().contains("user-agent"@));
            assert(client.dom().contains("x-"@ + program + "-code-session-id"@));
            assert(client.dom().contains("x-stainless-lang"@));
            assert(client.dom().contains("x-stainless-runtime"@));
            assert(client.dom().contains("x-stainless-runtime-version"@));
            assert(client.dom().contains("x-stainless-package-version"@));
            assert(client.dom().contains("x-stainless-os"@));
            assert(client.dom().contains("x-stainless-arch"@));
            assert(client.dom().contains("x-stainless-retry-count"@));
            assert(client.dom().contains("x-stainless-timeout"@));
            assert(client.dom().contains("x-client-request-id"@));
            assert(h["x-app"@] == client["x-app"@]);
            assert(!client.dom().contains("authorization"@)) by {
                thirteen_headers_identify_the_client(program, profile, request_id);
                assert(transport_names().contains("authorization"@));
            }
            assert(!client.dom().contains("x-api-key"@)) by {
                thirteen_headers_identify_the_client(program, profile, request_id);
                assert(transport_names().contains("x-api-key"@));
            }
            lemma_transport_names();
        },
        Err(_) => {},
    }
}

/// The header that asks for no compression is none of the others.
proof fn lemma_accept_encoding(program: Seq<char>)
    requires
        is_program_name(program),
    ensures
        !client_names(program).contains("accept-encoding"@),
        !transport_names().contains("accept-encoding"@),
        "accept-encoding"@ != "x-"@ + program + "-code-session-id"@,
        "accept-encoding"@ != "x-app"@,
        "accept-encoding"@ != "user-agent"@,
        "accept-encoding"@ != "anthropic-dangerous-direct-browser-access"@,
        "accept-encoding"@[0] == 'a',
        "accept-encoding"@[1] == 'c',
        forall|name: Seq<char>| #[trigger]
            client_names(program).contains(name) ==> name != "accept-encoding"@,
{
    reveal_strlit("accept-encoding");
    reveal_strlit("anthropic-dangerous-direct-browser-access");
    reveal_strlit("x-app");
    reveal_strlit("user-agent");
    reveal_strlit("x-");
    reveal_strlit("-code-session-id");
    reveal_strlit("x-stainless-lang");
    reveal_strlit("x-stainless-runtime");
    reveal_strlit("x-stainless-runtime-version");
    reveal_strlit("x-stainless-package-version");
    reveal_strlit("x-stainless-os");
    reveal_strlit("x-stainless-arch");
    reveal_strlit("x-stainless-retry-count");
    reveal_strlit("x-stainless-timeout");
    reveal_strlit("x-client-request-id");
    reveal_strlit("x-api-key");
    reveal_strlit("authorization");
    reveal_strlit("content-type");
    reveal_strlit("anthropic-version");
    reveal_strlit("anthropic-beta");
    let name = "accept-encoding"@;
    let n = client_names(program);
    assert(name[0] == 'a' && name[1] == 'c');
    assert(n[0][1] == 'n' && n[1][0] == 'x' && n[2][0] == 'u' && n[3][0] == 'x');
    assert(n[4][0] == 'x' && n[5][0] == 'x' && n[6][0] == 'x' && n[7][0] == 'x');
    assert(n[8][0] == 'x' && n[9][0] == 'x' && n[10][0] == 'x' && n[11][0] == 'x');
    assert(n[12][0] == 'x');
    assert("x-api-key"@[0] == 'x' && "authorization"@[1] == 'u' && "content-type"@[0] == 'c');
    assert("anthropic-version"@[1] == 'n' && "anthropic-beta"@[1] == 'n');
    if n.contains(name) {
        let i = choose|i: int| 0 <= i < n.len() && n[i] == name;
        assert(n.len() == 13);
        assert(i == 0 || n[i][0] != 'a');
    }
}

} // verus!
