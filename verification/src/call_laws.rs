//! What the functions give back, said of what they are called with.
use vstd::prelude::*;
use vstd::utf8::encode_utf8;
use crate::answer_laws::data_lines_carry_what_follows;
use crate::answer_laws::each_line_gives_its_payload;
use crate::answer_laws::is_line_ending;
use crate::answer_laws::is_without_line_feed;
use crate::answer_laws::lines_that_begin_with_data_carry_a_payload;
use crate::answer_laws::overflows;
use crate::answer_laws::payloads_are_parsed_unless_they_overflow;
use crate::chat::normalize_opencode_thinking;
use crate::chat::remove_anthropic_incompatible_openai_fields;
use crate::chat::CompletionRequest;
use crate::error::ByokError;
use crate::error::ByokErrorView;
use crate::executor::account_uuid;
use crate::executor::executor_transport;
use crate::executor::is_prepared;
use crate::executor::scope_key;
use crate::executor::ClaudeExecutor;
use crate::executor::CloakConfig;
use crate::executor::Cloaking;
use crate::executor::Credential;
use crate::executor::CredentialStep;
use crate::executor::PreparedRequest;
use crate::gateway::translate_error_text;
use crate::gateway::translated_response;
use crate::gateway::transport_base_url;
use crate::gateway::transport_headers;
use crate::headers::build_fingerprint_headers;
use crate::headers::check_sendable;
use crate::headers::fingerprint_headers;
use crate::headers::header_contents;
use crate::headers::header_text;
use crate::headers::listed_bytes;
use crate::headers::listed_texts;
use crate::headers::request_headers;
use crate::headers::sent_headers;
use crate::headers::transport_names;
use crate::headers::visible_texts;
use crate::headers::DeviceProfile;
use crate::ids::is_uuid_text;
use crate::ids::oid_uuid;
use crate::json::Json;
use crate::json::JsonObject;
use crate::json::JsonView;
use crate::laws::lemma_transport_names;
use crate::laws::payloads_come_one_by_one;
use crate::laws::thirteen_headers_identify_the_client;
use crate::laws::unread_bytes_hold_no_line;
use crate::plain_laws::are_default_words;
use crate::plain_laws::bare_secret;
use crate::plain_laws::bodies_hold_every_field;
use crate::plain_laws::has_no_control;
use crate::plain_laws::header_values_of_visible_bytes_have_a_text;
use crate::plain_laws::headers_say_what_the_client_is;
use crate::plain_laws::is_prepared_whole;
use crate::plain_laws::is_refused;
use crate::plain_laws::is_the_number_one;
use crate::plain_laws::is_thinking_for;
use crate::plain_laws::is_unknown_to_the_api;
use crate::plain_laws::is_with_forced_temperature;
use crate::plain_laws::are_messages_without_markers;
use crate::plain_laws::asks_for_thinking;
use crate::plain_laws::profiles_without_control_characters_can_be_sent;
use crate::plain_laws::requests_are_prepared_whole;
use crate::plain_laws::requests_lose_what_is_rejected_only;
use crate::plain_laws::texts_of_the_program;
use crate::plain_laws::the_temperature_is_forced_while_thinking;
use crate::plain_laws::thinking_settings_are_replaced;
use crate::plain_laws::transports_hold_what_they_are_made_of;
use crate::plain_laws::trimming_drops_the_end;
use crate::program::anthropic_beta;
use crate::program::beta_flags;
use crate::program::is_program_name;
use crate::program::joined;
use crate::program::session_header_name;
use crate::program::user_agent;
use crate::program::ProgramName;
use crate::response::begin_response;
use crate::response::complete_checked_response;
use crate::response::complete_response;
use crate::response::end_response;
use crate::response::ResponseStep;
use crate::sse::classify;
use crate::sse::end_payload;
use crate::sse::has_done_event;
use crate::sse::is_done_event;
use crate::sse::line_payload;
use crate::sse::parsed_events;
use crate::sse::payloads;
use crate::sse::text_payload;
use crate::sse::unread;
use crate::sse::Parsed;
use crate::sse::PayloadStep;
use crate::sse::SseStep;
use crate::sse::SseTranslator;
use crate::temperature::normalize_temperature_for_thinking;
use crate::text::concat_text;
use crate::text::decoded_text;
use crate::text::same_text;
use crate::text::strip_prefix;
use crate::text::trim;
use crate::text::trim_end;
use crate::text::trim_end_slashes;
use crate::usage::check_response_counts;
use crate::usage::event_kind;
use crate::usage::response_counts;
use crate::usage::EventCounter;
use crate::usage::EventKind;
use crate::value::json_bytes;
use crate::value::json_string;
use crate::value::read_slice;
use crate::value::read_str;
use crate::value::slice_json;
use crate::value::str_json;
use crate::value::value_view;
use crate::value::write_string;
use crate::value::write_vec;

verus! {

// Texts and JSON.

/// Two texts are the same where all their characters are.
pub proof fn same_text_compares_all(a: &str, b: &str, same: bool)
    requires
        call_ensures(same_text, (a, b), same),
    ensures
        same <==> a@.len() == b@.len() && forall|i: int|
            0 <= i < a@.len() ==> #[trigger] a@[i] == b@[i],
{
    if a@.len() == b@.len() && forall|i: int| 0 <= i < a@.len() ==> #[trigger] a@[i] == b@[i] {
        assert(a@ =~= b@);
    }
}

/// Joining puts one text behind the other, and taking the first off again leaves the second.
pub proof fn prefixes_are_taken_off(
    a: &str,
    b: &str,
    whole: &str,
    joined: String,
    rest: Option<&str>,
)
    requires
        call_ensures(concat_text, (a, b), joined),
        whole@ == joined@,
        call_ensures(strip_prefix, (whole, a), rest),
    ensures
        joined@ == a@ + b@,
        rest is Some,
        rest->Some_0@ == b@,
{
    assert(whole@.take(a@.len() as int) =~= a@);
    assert(whole@.skip(a@.len() as int) =~= b@);
}

/// A prefix is taken off only where it stands.
pub proof fn other_prefixes_are_not_taken_off(text: &str, prefix: &str, rest: Option<&str>)
    requires
        call_ensures(strip_prefix, (text, prefix), rest),
    ensures
        match rest {
            Some(rest) => text@ == prefix@ + rest@,
            None => !exists|rest: Seq<char>| text@ == #[trigger] (prefix@ + rest),
        },
{
    match rest {
        Some(rest) => {
            assert(text@ =~= prefix@ + rest@);
        },
        None => {
            if exists|rest: Seq<char>| text@ == #[trigger] (prefix@ + rest) {
                assert(text@.take(prefix@.len() as int) =~= prefix@);
            }
        },
    }
}

/// Slashes are taken off the end, and nothing else is.
pub proof fn only_the_last_slashes_are_taken_off(
    text: &str,
    base: Seq<char>,
    slashes: nat,
    trimmed: String,
)
    requires
        call_ensures(trim_end_slashes, (text,), trimmed),
        text@ == base + Seq::new(slashes, |i: int| '/'),
        base.len() > 0 ==> base.last() != '/',
    ensures
        trimmed@ == base,
{
    trimming_drops_the_end(base, set!['/'], Seq::new(slashes, |i: int| '/'));
}

/// A member that has been put into an object is found there, and the others are as before.
pub proof fn objects_give_back_what_was_put_in(
    object: &mut JsonObject,
    key: String,
    value: Json,
    other: Seq<char>,
)
    requires
        call_ensures(JsonObject::insert, (object, key, value), ()),
    ensures
        final(object)@.dom().contains(key@),
        final(object)@[key@] == value@,
        other != key@ ==> final(object)@.dom().contains(other) == old(object)@.dom().contains(other),
        other != key@ && old(object)@.dom().contains(other) ==> final(object)@[other] == old(
            object,
        )@[other],
{
}

/// A member that has been taken out is gone, and the others are as before.
pub proof fn objects_lose_what_was_taken_out(object: &mut JsonObject, key: &str, other: Seq<char>)
    requires
        call_ensures(JsonObject::remove, (object, key), ()),
    ensures
        !final(object)@.dom().contains(key@),
        other != key@ ==> final(object)@.dom().contains(other) == old(object)@.dom().contains(other),
        other != key@ && old(object)@.dom().contains(other) ==> final(object)@[other] == old(
            object,
        )@[other],
{
}

/// What is found under a key is the member of the object.
pub proof fn members_are_found(
    object: JsonObject,
    value: Json,
    key: &str,
    in_object: Option<&Json>,
    in_value: Option<&Json>,
)
    requires
        call_ensures(JsonObject::get, (&object, key), in_object),
        call_ensures(Json::get, (&value, key), in_value),
    ensures
        in_object is Some <==> object@.dom().contains(key@),
        in_object matches Some(found) ==> found@ == object@[key@],
        match value@ {
            JsonView::Object(members) => if members.dom().contains(key@) {
                in_value is Some && in_value->Some_0@ == members[key@]
            } else {
                in_value is None
            },
            _ => in_value is None,
        },
{
}

/// Values are the same in either form, and documents are read and written as `serde_json` does.
pub proof fn documents_are_those_of_serde_json(
    value: serde_json::Value,
    json: Json,
    back: serde_json::Value,
    bytes: &[u8],
    text: &str,
    from_bytes: Result<Json, String>,
    from_text: Result<Json, String>,
    to_bytes: Result<Vec<u8>, String>,
    to_text: Result<String, String>,
)
    requires
        call_ensures(Json::from_value, (value,), json),
        call_ensures(Json::into_value, (json,), back),
        call_ensures(read_slice, (bytes,), from_bytes),
        call_ensures(read_str, (text,), from_text),
        call_ensures(write_vec, (json,), to_bytes),
        call_ensures(write_string, (json,), to_text),
    ensures
        json@ == value_view(value),
        value_view(back) == value_view(value),
        match slice_json(bytes@) {
            Ok(read) => from_bytes is Ok && from_bytes->Ok_0@ == read,
            Err(error) => from_bytes is Err && from_bytes->Err_0@ == error,
        },
        match str_json(text@) {
            Ok(read) => from_text is Ok && from_text->Ok_0@ == read,
            Err(error) => from_text is Err && from_text->Err_0@ == error,
        },
        match json_bytes(json@) {
            Ok(written) => to_bytes is Ok && to_bytes->Ok_0@ == written,
            Err(error) => to_bytes is Err && to_bytes->Err_0@ == error,
        },
        match json_string(json@) {
            Ok(written) => to_text is Ok && to_text->Ok_0@ == written,
            Err(error) => to_text is Err && to_text->Err_0@ == error,
        },
{
}

// Requests.

/// Normalising replaces the thinking setting by the one that stands for it, and nothing else.
pub proof fn only_the_thinking_setting_is_normalised(extra: &mut JsonObject, key: Seq<char>)
    requires
        call_ensures(normalize_opencode_thinking, (extra,), ()),
    ensures
        is_thinking_for(old(extra)@, final(extra)@),
        key != "thinking"@ ==> final(extra)@.dom().contains(key) == old(extra)@.dom().contains(key),
        key != "thinking"@ && old(extra)@.dom().contains(key) ==> final(extra)@[key] == old(
            extra,
        )@[key],
{
    thinking_settings_are_replaced(old(extra)@, key);
}

/// A request loses the fields that the API rejects and the markers of its messages, and keeps all
/// its messages and all its other fields.
pub proof fn requests_keep_what_is_accepted(request: &mut CompletionRequest, key: Seq<char>)
    requires
        call_ensures(remove_anthropic_incompatible_openai_fields, (request,), ()),
    ensures
        final(request)@.model == old(request)@.model,
        final(request)@.stream == old(request)@.stream,
        are_messages_without_markers(old(request)@.messages, final(request)@.messages),
        is_thinking_for(old(request)@.extra, final(request)@.extra),
        is_unknown_to_the_api(key) ==> !final(request)@.extra.dom().contains(key),
        !is_unknown_to_the_api(key) && key != "thinking"@ ==> final(request)@.extra.dom().contains(
            key,
        ) == old(request)@.extra.dom().contains(key),
        !is_unknown_to_the_api(key) && key != "thinking"@ && old(request)@.extra.dom().contains(key)
            ==> final(request)@.extra[key] == old(request)@.extra[key],
{
    requests_lose_what_is_rejected_only(old(request)@, key);
}

/// The body of a request has every extra field, and the model, the messages and the stream flag
/// where no extra field stands there.
pub proof fn bodies_are_whole(request: CompletionRequest, body: Json, key: Seq<char>)
    requires
        call_ensures(CompletionRequest::into_body, (request,), body),
    ensures
        body@ is Object,
        ({
            let members = body@->Object_0;
            let extra = request@.extra;
            &&& extra.dom().contains(key) ==> members.dom().contains(key) && members[key]
                == extra[key]
            &&& !extra.dom().contains(key) ==> {
                &&& members.dom().contains(key) <==> (key == "model"@ || key == "messages"@ || key
                    == "stream"@)
                &&& key == "model"@ ==> members[key] == JsonView::Text(request@.model)
                &&& key == "messages"@ ==> members[key] == JsonView::Array(request@.messages)
                &&& key == "stream"@ ==> members[key] == JsonView::Bool(request@.stream)
            }
        }),
{
    bodies_hold_every_field(request@, key);
}

/// The temperature is one in every body that asks for thinking and has a temperature; every other
/// body stays as it is.
pub proof fn thinking_needs_a_temperature_of_one(body: &mut Json)
    requires
        call_ensures(normalize_temperature_for_thinking, (body,), ()),
    ensures
        is_with_forced_temperature(old(body)@, final(body)@),
        match old(body)@ {
            JsonView::Object(members) if asks_for_thinking(members) => {
                &&& final(body)@ is Object
                &&& members.dom().contains("temperature"@) ==> is_the_number_one(
                    final(body)@->Object_0["temperature"@],
                )
            },
            _ => final(body)@ == old(body)@,
        },
{
    the_temperature_is_forced_while_thinking(old(body)@);
}

/// An executor keeps what it is made with, its base URL without the last slashes; without one, it
/// has that of the API.
pub proof fn executors_keep_what_they_are_made_with(
    program: ProgramName,
    api_key: Option<String>,
    base_url: Option<String>,
    cloak_config: Option<CloakConfig>,
    executor: ClaudeExecutor,
)
    requires
        call_ensures(ClaudeExecutor::new, (program, api_key, base_url, cloak_config), executor),
    ensures
        executor.program == program,
        executor.api_key == api_key,
        executor.cloak_config == cloak_config,
        base_url matches Some(url) ==> executor.base_url@ == trim_end(url@, set!['/']),
        base_url is None ==> executor.base_url@ == "https://api.anthropic.com"@,
{
    reveal_strlit("https://api.anthropic.com");
    assert("https://api.anthropic.com"@.last() == 'm');
}

/// A configured API key is the credential; otherwise a token has to be fetched.
pub proof fn a_configured_key_is_the_credential(executor: ClaudeExecutor, step: CredentialStep)
    requires
        call_ensures(ClaudeExecutor::get_credential, (&executor,), step),
    ensures
        match executor.api_key {
            Some(key) => step matches CredentialStep::Ready(Credential::ApiKey(given)) && given@
                == key@,
            None => step is FetchToken,
        },
{
}

/// The scope of a key is the key behind `api_key:`, that of a token is `global`, and the account of
/// a scope is its UUID.
pub proof fn accounts_are_those_of_scopes(
    credential: Credential,
    scope: String,
    text: &str,
    uuid: String,
)
    requires
        call_ensures(scope_key, (&credential,), scope),
        call_ensures(account_uuid, (text,), uuid),
    ensures
        match credential {
            Credential::ApiKey(key) => scope@ == "api_key:"@ + key@,
            Credential::Bearer(_) => scope@ == "global"@,
        },
        uuid@ == oid_uuid(encode_utf8(text@)),
{
}

/// The cloaking of a request has the configured set-up unchanged where that is enabled, for either
/// credential; the default one for a token otherwise; and none for a key.
pub proof fn cloaking_keeps_the_configuration(
    executor: ClaudeExecutor,
    credential: Credential,
    profile: DeviceProfile,
    cloaking: Option<Cloaking>,
)
    requires
        call_ensures(ClaudeExecutor::cloaking_for, (&executor, &credential, &profile), cloaking),
    ensures
        match executor.cloak_config {
            Some(config) if config.enabled => {
                &&& cloaking is Some
                &&& cloaking->Some_0.config.enabled
                &&& cloaking->Some_0.config.strict_mode == config.strict_mode
                &&& cloaking->Some_0.config.sensitive_words@.len() == config.sensitive_words@.len()
                &&& forall|i: int|
                    0 <= i < config.sensitive_words@.len() ==> (
                    #[trigger] cloaking->Some_0.config.sensitive_words@[i])@
                        == config.sensitive_words@[i]@
            },
            _ => match credential {
                Credential::ApiKey(_) => cloaking is None,
                Credential::Bearer(_) => {
                    &&& cloaking is Some
                    &&& cloaking->Some_0.config.enabled
                    &&& cloaking->Some_0.config.strict_mode
                    &&& are_default_words(cloaking->Some_0.config@.sensitive_words)
                },
            },
        },
        cloaking matches Some(applied) ==> {
            &&& applied.device_id@ == profile.device_id@
            &&& applied.session_id@ == profile.session_id@
            &&& applied.entrypoint@ == "cli"@
            &&& applied.account_uuid@ == match credential {
                Credential::ApiKey(key) => oid_uuid(encode_utf8("api_key:"@ + key@)),
                Credential::Bearer(_) => oid_uuid(encode_utf8("global"@)),
            }
        },
{
    match executor.cloak_config {
        Some(config) if config.enabled => {
            let words = cloaking->Some_0.config@.sensitive_words;
            assert(words == config@.sensitive_words);
            assert(words.len() == cloaking->Some_0.config.sensitive_words@.len());
            assert forall|i: int| 0 <= i < config.sensitive_words@.len() implies (
            #[trigger] cloaking->Some_0.config.sensitive_words@[i])@
                == config.sensitive_words@[i]@ by {
                assert(words[i] == cloaking->Some_0.config.sensitive_words@[i]@);
                assert(config@.sensitive_words[i] == config.sensitive_words@[i]@);
            }
        },
        _ => {},
    }
}

/// A transport is made exactly where credential and base URL are not refused, goes to the base URL,
/// and carries the credential in its header.
pub proof fn transports_carry_the_credential(
    executor: ClaudeExecutor,
    credential: Credential,
    profile: DeviceProfile,
    request_id: &str,
    made: Result<aigw::anthropic::Transport, ByokError>,
)
    requires
        is_program_name(executor.program@),
        call_ensures(
            ClaudeExecutor::build_transport_for,
            (&executor, &credential, &profile, request_id),
            made,
        ),
    ensures
        match made {
            Ok(transport) => {
                let headers = transport_headers(transport);
                &&& !exists|text: Seq<char>| is_refused(credential@, executor.base_url@, text)
                &&& headers["anthropic-version"@] == seq![encode_utf8("2023-06-01"@)]
                &&& headers["anthropic-beta"@] == seq![
                    encode_utf8(joined(beta_flags(executor.program@))),
                ]
                &&& headers["x-client-request-id"@] == seq![encode_utf8(request_id@)]
                &&& match credential {
                    Credential::ApiKey(_) => headers["x-api-key"@] == seq![
                        encode_utf8(bare_secret(credential@)),
                    ] && !headers.dom().contains("authorization"@),
                    Credential::Bearer(_) => headers["authorization"@] == seq![
                        encode_utf8("Bearer "@ + bare_secret(credential@)),
                    ] && !headers.dom().contains("x-api-key"@),
                }
            },
            Err(ByokError::Config(text)) => is_refused(credential@, executor.base_url@, text@),
            Err(ByokError::Translation(_)) => false,
        },
{
    let program = executor.program@;
    transports_hold_what_they_are_made_of(
        program,
        executor.base_url@,
        credential@,
        profile,
        request_id@,
    );
    headers_say_what_the_client_is(program, profile, request_id@);
    lemma_transport_names();
    thirteen_headers_identify_the_client(program, profile, request_id@);
    assert(transport_names().contains("x-api-key"@));
    assert(transport_names().contains("authorization"@));
    let client = fingerprint_headers(program, profile, request_id@);
    assert(client.dom().contains("x-client-request-id"@));
}

/// A request is prepared from the whole of what is given.
pub proof fn calls_prepare_the_whole_request(
    executor: ClaudeExecutor,
    credential: Credential,
    profile: DeviceProfile,
    request: CompletionRequest,
    request_id: &str,
    prepared: Result<PreparedRequest, ByokError>,
)
    requires
        is_program_name(executor.program@),
        call_ensures(
            ClaudeExecutor::prepare_for,
            (&executor, &credential, &profile, request, request_id),
            prepared,
        ),
    ensures
        is_prepared_whole(executor, credential@, profile, request@, request_id@, prepared),
{
    requests_are_prepared_whole(
        executor,
        credential@,
        profile,
        request@,
        request_id@,
        prepared,
    );
}

/// So it is where its identifier is drawn.
pub proof fn drawn_identifiers_prepare_the_whole_request(
    executor: ClaudeExecutor,
    credential: Credential,
    profile: DeviceProfile,
    request: CompletionRequest,
    prepared: Result<PreparedRequest, ByokError>,
)
    requires
        is_program_name(executor.program@),
        call_ensures(
            ClaudeExecutor::prepare,
            (&executor, &credential, &profile, request),
            prepared,
        ),
    ensures
        exists|request_id: Seq<char>|
            is_uuid_text(request_id, '4') && #[trigger] is_prepared_whole(
                executor,
                credential@,
                profile,
                request@,
                request_id,
                prepared,
            ),
{
    let request_id = choose|request_id: Seq<char>|
        is_uuid_text(request_id, '4') && #[trigger] is_prepared(
            executor,
            credential@,
            profile,
            request@,
            request_id,
            prepared,
        );
    requests_are_prepared_whole(executor, credential@, profile, request@, request_id, prepared);
}

/// A transport whose identifier is drawn is that of some identifier, a UUID of version 4: made, or
/// refused, as for any other.
pub proof fn drawn_identifiers_make_the_same_transports(
    executor: ClaudeExecutor,
    credential: Credential,
    profile: DeviceProfile,
    made: Result<aigw::anthropic::Transport, ByokError>,
)
    requires
        is_program_name(executor.program@),
        call_ensures(
            ClaudeExecutor::build_transport,
            (&executor, &credential, &profile),
            made,
        ),
    ensures
        match made {
            Ok(transport) => {
                &&& !exists|text: Seq<char>| is_refused(credential@, executor.base_url@, text)
                &&& transport_base_url(transport) == trim_end(
                    trim(executor.base_url@),
                    set!['/'],
                )
                &&& exists|request_id: Seq<char>| #[trigger]
                    is_uuid_text(request_id, '4') && transport_headers(
                        transport,
                    )["x-client-request-id"@] == seq![encode_utf8(request_id)]
                &&& transport_headers(transport)["x-app"@] == seq![encode_utf8("cli"@)]
            },
            Err(ByokError::Config(text)) => is_refused(credential@, executor.base_url@, text@),
            Err(ByokError::Translation(_)) => false,
        },
{
    let program = executor.program@;
    let id = choose|request_id: Seq<char>|
        is_uuid_text(request_id, '4') && match #[trigger] executor_transport(
            program,
            executor.base_url@,
            credential@,
            profile,
            request_id,
        ) {
            Ok(view) => made matches Ok(transport) && transport_base_url(transport)
                == view.base_url && transport_headers(transport) == view.headers,
            Err(text) => made matches Err(error) && error@ == ByokErrorView::Config(text),
        };
    transports_hold_what_they_are_made_of(program, executor.base_url@, credential@, profile, id);
    headers_say_what_the_client_is(program, profile, id);
    let client = fingerprint_headers(program, profile, id);
    assert(client.dom().contains("x-client-request-id"@));
    assert(client.dom().contains("x-app"@));
}

/// The headers of a client whose identifier is drawn hold some UUID of version 4, and say the same
/// for keys and tokens.
pub proof fn drawn_identifiers_are_uuids(
    program: ProgramName,
    profile: DeviceProfile,
    is_api_key: bool,
    headers: http::HeaderMap<http::HeaderValue>,
)
    requires
        is_program_name(program@),
        call_ensures(build_fingerprint_headers, (&program, &profile, is_api_key), headers),
    ensures
        exists|request_id: Seq<char>|
            is_uuid_text(request_id, '4') && header_contents(headers)
                == #[trigger] fingerprint_headers(program@, profile, request_id),
        header_contents(headers).dom().len() == 13,
{
    let id = choose|request_id: Seq<char>|
        is_uuid_text(request_id, '4') && header_contents(headers)
            == #[trigger] fingerprint_headers(program@, profile, request_id);
    thirteen_headers_identify_the_client(program@, profile, id);
}

/// A UUID is written as 36 characters: hyphens at four places, and lower-case hexadecimal digits
/// elsewhere, the first of the third group being its version.
pub proof fn uuids_are_written_in_groups(text: Seq<char>, version: char, i: int)
    requires
        is_uuid_text(text, version),
        0 <= i < 36,
    ensures
        text.len() == 36,
        text[14] == version,
        i == 8 || i == 13 || i == 18 || i == 23 ==> text[i] == '-',
        i != 8 && i != 13 && i != 18 && i != 23 ==> (48 <= text[i] as int <= 57) || (97
            <= text[i] as int <= 102),
{
    assert(text[i] == text[i]);
}

/// What is assembled keeps the URL, the flag and the headers that are given, and adds to the first
/// and the last.
pub proof fn assembled_requests_keep_what_is_given(
    executor: ClaudeExecutor,
    credential: Credential,
    profile: DeviceProfile,
    stream: bool,
    url: &str,
    list: Vec<(String, Vec<u8>)>,
    body: Json,
    name: Seq<char>,
    prepared: PreparedRequest,
)
    requires
        call_ensures(
            ClaudeExecutor::assemble,
            (&executor, &credential, &profile, stream, url, &list, body),
            prepared,
        ),
    ensures
        prepared.url@ == url@ + "?beta=true"@,
        prepared.stream == stream,
        prepared.remap_tools == (credential is Bearer),
        is_with_forced_temperature(body@, prepared.body@),
        name != "accept-encoding"@ ==> listed_texts(prepared.headers@, name) == visible_texts(
            listed_bytes(list@, name),
        ),
        name == "accept-encoding"@ ==> listed_texts(prepared.headers@, name) == visible_texts(
            listed_bytes(list@, name),
        ).push("identity"@),
{
    the_temperature_is_forced_while_thinking(body@);
    let texts = visible_texts(listed_bytes(list@, name));
    assert(texts + Seq::<Seq<char>>::empty() =~= texts);
    assert(texts + seq!["identity"@] =~= texts.push("identity"@));
    assert(listed_texts(prepared.headers@, name) == texts + if name == "accept-encoding"@ {
        seq!["identity"@]
    } else {
        Seq::empty()
    });
}

/// The headers of a client say what it is, and a profile can be sent where its texts have no control
/// characters.
pub proof fn client_headers_say_what_it_is(
    program: ProgramName,
    profile: DeviceProfile,
    request_id: &str,
    headers: http::HeaderMap<http::HeaderValue>,
    fit: bool,
)
    requires
        is_program_name(program@),
        call_ensures(request_headers, (&program, &profile, request_id), headers),
        call_ensures(check_sendable, (&profile,), fit),
    ensures
        ({
            let h = header_contents(headers);
            &&& h["x-app"@] == seq![encode_utf8("cli"@)]
            &&& h["user-agent"@] == seq![encode_utf8(profile.user_agent@)]
            &&& h["x-"@ + program@ + "-code-session-id"@] == seq![encode_utf8(profile.session_id@)]
            &&& h["x-stainless-runtime-version"@] == seq![encode_utf8(profile.runtime_version@)]
            &&& h["x-stainless-package-version"@] == seq![encode_utf8(profile.package_version@)]
            &&& h["x-stainless-os"@] == seq![encode_utf8(profile.os@)]
            &&& h["x-stainless-arch"@] == seq![encode_utf8(profile.arch@)]
            &&& h["x-client-request-id"@] == seq![encode_utf8(request_id@)]
            &&& h["anthropic-dangerous-direct-browser-access"@] == seq![encode_utf8("true"@)]
            &&& h["x-stainless-lang"@] == seq![encode_utf8("js"@)]
            &&& h["x-stainless-runtime"@] == seq![encode_utf8("node"@)]
            &&& h["x-stainless-retry-count"@] == seq![encode_utf8("0"@)]
            &&& h["x-stainless-timeout"@] == seq![encode_utf8("600"@)]
            &&& h.dom().len() == 13
        }),
        fit <==> has_no_control(profile.user_agent@) && has_no_control(profile.session_id@)
            && has_no_control(profile.runtime_version@) && has_no_control(profile.package_version@)
            && has_no_control(profile.os@) && has_no_control(profile.arch@),
{
    headers_say_what_the_client_is(program@, profile, request_id@);
    thirteen_headers_identify_the_client(program@, profile, request_id@);
    profiles_without_control_characters_can_be_sent(profile);
}

/// A header value of visible ASCII bytes has these characters as its text; any other has none.
pub proof fn visible_bytes_are_read(bytes: Vec<u8>, text: Option<String>)
    requires
        call_ensures(header_text, (&bytes,), text),
    ensures
        text is Some <==> forall|i: int|
            0 <= i < bytes@.len() ==> #[trigger] bytes@[i] == 0x09 || 0x20 <= bytes@[i] <= 0x7e,
        text matches Some(read) ==> read@.len() == bytes@.len() && forall|i: int|
            0 <= i < bytes@.len() ==> (#[trigger] read@[i]) as int == bytes@[i],
{
    header_values_of_visible_bytes_have_a_text(bytes@);
}

/// The headers that are sent are those with a text, and one that asks for no compression.
pub proof fn headers_are_sent_with_one_more(
    list: Vec<(String, Vec<u8>)>,
    sent: Vec<(String, String)>,
    name: Seq<char>,
)
    requires
        call_ensures(sent_headers, (&list,), sent),
    ensures
        name != "accept-encoding"@ ==> listed_texts(sent@, name) == visible_texts(
            listed_bytes(list@, name),
        ),
        name == "accept-encoding"@ ==> listed_texts(sent@, name) == visible_texts(
            listed_bytes(list@, name),
        ).push("identity"@),
{
    let texts = visible_texts(listed_bytes(list@, name));
    assert(texts + Seq::<Seq<char>>::empty() =~= texts);
    assert(texts + seq!["identity"@] =~= texts.push("identity"@));
    assert(listed_texts(sent@, name) == texts + if name == "accept-encoding"@ {
        seq!["identity"@]
    } else {
        Seq::empty()
    });
}

/// The texts of a program are made with its name, which is one word in lower case.
pub proof fn program_texts_are_made_with_its_name(
    text: String,
    made: Option<ProgramName>,
    program: ProgramName,
    agent: String,
    session: String,
    beta: String,
)
    requires
        call_ensures(ProgramName::new, (text,), made),
        call_ensures(user_agent, (&program,), agent),
        call_ensures(session_header_name, (&program,), session),
        call_ensures(anthropic_beta, (&program,), beta),
    ensures
        made is Some <==> 1 <= text@.len() <= 32 && forall|i: int|
            0 <= i < text@.len() ==> 97 <= (#[trigger] text@[i]) as int <= 122,
        made matches Some(named) ==> named@ == text@,
        agent@ == program@ + "-cli/2.1.173 (external, sdk-cli)"@,
        session@ == "x-"@ + program@ + "-code-session-id"@,
        beta@ == joined(beta_flags(program@)),
{
    texts_of_the_program(text@, Seq::empty(), Seq::empty());
}

// Answers.

/// A line gives what stands between `data: ` and the line ending, and nothing where it does not
/// begin so.
pub proof fn data_lines_are_read(
    line: &str,
    data: Seq<char>,
    ending: Seq<char>,
    given: Option<String>,
)
    requires
        call_ensures(line_payload, (line,), given),
        is_line_ending(ending),
        data.len() > 0 ==> data.last() != '\r' && data.last() != '\n',
    ensures
        line@ == "data: "@ + data + ending ==> given is Some && given->Some_0@ == data,
        given is Some <==> exists|rest: Seq<char>| line@ == #[trigger] ("data: "@ + rest),
{
    data_lines_carry_what_follows(data, ending);
    lines_that_begin_with_data_carry_a_payload(line@);
}

/// A renamed event is passed on as its JSON text wherever it has one.
pub proof fn renamed_events_are_written(event: Json, data: &str, renamed: String)
    requires
        call_ensures(end_payload, (event, data), renamed),
    ensures
        match json_string(event@) {
            Ok(text) => renamed@ == text,
            Err(_) => renamed@ == data@,
        },
{
}

/// A payload is handed out to be renamed exactly where that is wanted and it can be read.
pub proof fn readable_payloads_are_renamed(
    translator: SseTranslator,
    data: String,
    step: PayloadStep,
)
    requires
        call_ensures(SseTranslator::begin, (&translator, data), step),
    ensures
        match str_json(data@) {
            Ok(event) => if translator@.reverse_tool_names {
                step matches PayloadStep::Rename(json, kept) && json@ == event && kept@ == data@
            } else {
                step matches PayloadStep::Parse(text) && text@ == data@
            },
            Err(_) => step matches PayloadStep::Parse(text) && text@ == data@,
        },
{
}

/// Events are passed on where there are any, and errors with their text.
pub proof fn outcomes_are_told_apart(
    events: Vec<aigw_core::model::StreamEvent>,
    error: aigw_core::error::TranslateError,
    good: Parsed,
    bad: Parsed,
)
    requires
        call_ensures(classify, (Ok(events),), good),
        call_ensures(classify, (Err(error),), bad),
    ensures
        events@.len() > 0 ==> good == Parsed::Events(events),
        events@.len() == 0 ==> good is Nothing,
        bad matches Parsed::Failed(text) && text@ == translate_error_text(error),
{
}

/// A new translator has nothing, and bytes that are fed wait behind those that were there.
pub proof fn fed_bytes_wait(
    reverse_tool_names: bool,
    fresh: SseTranslator,
    translator: &mut SseTranslator,
    bytes: &[u8],
)
    requires
        call_ensures(SseTranslator::new, (reverse_tool_names,), fresh),
        call_ensures(SseTranslator::feed, (translator, bytes), ()),
    ensures
        fresh@.pending.len() == 0,
        fresh@.history.len() == 0,
        fresh@.reverse_tool_names == reverse_tool_names,
        !fresh@.done,
        final(translator)@.pending == old(translator)@.pending + bytes@,
        final(translator)@.history == old(translator)@.history,
        final(translator)@.reverse_tool_names == old(translator)@.reverse_tool_names,
        final(translator)@.done == old(translator)@.done,
{
}

/// The next step gives the payloads of the waiting lines one by one, in order; without a line that
/// carries one it ends the stream where that is done, and asks for more bytes otherwise.
pub proof fn steps_give_the_payloads_in_order(translator: &mut SseTranslator, step: SseStep)
    requires
        call_ensures(SseTranslator::next_step, (translator,), step),
    ensures
        final(translator)@.history == old(translator)@.history,
        final(translator)@.reverse_tool_names == old(translator)@.reverse_tool_names,
        final(translator)@.done == old(translator)@.done,
        unread(final(translator)@.pending) == unread(old(translator)@.pending),
        match step {
            SseStep::Data(data) => payloads(old(translator)@.pending) == seq![data@] + payloads(
                final(translator)@.pending,
            ),
            SseStep::End => payloads(old(translator)@.pending).len() == 0 && old(translator)@.done,
            SseStep::More => payloads(old(translator)@.pending).len() == 0 && !old(
                translator,
            )@.done,
        },
{
    payloads_come_one_by_one(old(translator)@.pending);
    lemma_unread_twice(old(translator)@.pending);
}

/// What is left unread stays so.
proof fn lemma_unread_twice(bytes: Seq<u8>)
    ensures
        unread(unread(bytes)) == unread(bytes),
{
    unread_bytes_hold_no_line(bytes);
}

/// On a line in front that carries a payload, the next step gives it and takes the line out; without
/// any line feed it changes nothing.
pub proof fn steps_take_lines_out(
    translator: &mut SseTranslator,
    content: Seq<u8>,
    rest: Seq<u8>,
    step: SseStep,
)
    requires
        call_ensures(SseTranslator::next_step, (translator,), step),
        is_without_line_feed(content),
    ensures
        old(translator)@.pending == content + seq![0x0au8] + rest && text_payload(
            decoded_text(content + seq![0x0au8]),
        ) is Some ==> step is Data && step->Data_0@ == text_payload(
            decoded_text(content + seq![0x0au8]),
        )->Some_0 && final(translator)@.pending == rest,
        old(translator)@.pending == content ==> !(step is Data) && final(translator)@.pending == content
            && (step is End <==> old(translator)@.done),
{
    each_line_gives_its_payload(content, rest);
}

/// A payload is parsed unless that would overflow, with the events of the parser; one that would is
/// refused and changes nothing.
pub proof fn payloads_are_parsed(
    translator: &mut SseTranslator,
    data: &str,
    parsed: Option<Parsed>,
)
    requires
        call_ensures(SseTranslator::parse_checked, (translator, data), parsed),
    ensures
        parsed is None <==> overflows(old(translator)@.history, data@),
        parsed is None ==> final(translator)@ == old(translator)@,
        final(translator)@.pending == old(translator)@.pending,
        final(translator)@.done == old(translator)@.done,
        parsed is Some && !(event_kind(data@) is Ping) ==> {
            &&& final(translator)@.history == old(translator)@.history.push(data@)
            &&& match parsed_events(old(translator)@.history, data@) {
                Ok(events) => if events.len() > 0 {
                    parsed matches Some(Parsed::Events(list)) && list@ == events
                } else {
                    parsed matches Some(Parsed::Nothing)
                },
                Err(text) => parsed matches Some(Parsed::Failed(shown)) && shown@ == text,
            }
        },
        event_kind(data@) is Ping ==> parsed matches Some(Parsed::Nothing),
{
    payloads_are_parsed_unless_they_overflow(old(translator)@, data@);
}

/// Written events are passed on where anything was written, and the stream is done once `Done` has
/// been.
pub proof fn written_events_are_passed_on(
    translator: &mut SseTranslator,
    events: Vec<aigw_core::model::StreamEvent>,
    written: Vec<u8>,
    passed: Option<Vec<u8>>,
)
    requires
        call_ensures(SseTranslator::emit, (translator, &events, written), passed),
    ensures
        written@.len() > 0 ==> passed == Some(written),
        written@.len() == 0 ==> passed is None && final(translator)@ == old(translator)@,
        final(translator)@.done <==> (old(translator)@.done || (written@.len() > 0
            && exists|i: int| 0 <= i < events@.len() && is_done_event(#[trigger] events@[i]))),
        final(translator)@.pending == old(translator)@.pending,
        final(translator)@.history == old(translator)@.history,
        final(translator)@.reverse_tool_names == old(translator)@.reverse_tool_names,
{
    assert(has_done_event(events@) <==> exists|i: int|
        0 <= i < events@.len() && is_done_event(#[trigger] events@[i]));
}

/// Counting stops only where a block has no number in 32 bits left or a token sum does not fit.
pub proof fn counters_stop_at_the_bounds(
    fresh: EventCounter,
    counter: EventCounter,
    data: &str,
    fit: bool,
)
    requires
        call_ensures(EventCounter::new, (), fresh),
        call_ensures(EventCounter::check, (&counter, data), fit),
    ensures
        fresh@.input == 0 && fresh@.tools == 0 && fresh@.thoughts == 0,
        match event_kind(data@) {
            EventKind::ToolUse => fit <==> counter@.tools <= 0xffff_fffe,
            EventKind::Thinking => fit <==> counter@.thoughts <= 0xffff_fffe,
            EventKind::Delta(output) => fit <==> counter@.input + output <= 0xffff_ffff_ffff_ffff,
            EventKind::Start(_) => fit,
            EventKind::Ping => fit,
            EventKind::Other => fit,
        },
{
}

/// A counter counts each block once and keeps the last input tokens.
pub proof fn counters_count_each_block_once(counter: &mut EventCounter, data: &str)
    requires
        call_ensures(EventCounter::count, (counter, data), ()),
    ensures
        final(counter)@.tools == old(counter)@.tools + if event_kind(data@) is ToolUse {
            1nat
        } else {
            0nat
        },
        final(counter)@.thoughts == old(counter)@.thoughts + if event_kind(data@) is Thinking {
            1nat
        } else {
            0nat
        },
        final(counter)@.input == if event_kind(data@) is Start {
            event_kind(data@)->Start_0
        } else {
            old(counter)@.input
        },
{
}

/// Whether a result is the completion that a body is translated to, or the error of that.
pub open spec fn is_completed(body: Seq<u8>, result: Result<Json, ByokError>) -> bool {
    match translated_response(body) {
        Ok(Ok(fields)) => {
            &&& result is Ok
            &&& result->Ok_0@ is Object
            &&& result->Ok_0@->Object_0.dom().contains("created"@)
            &&& result->Ok_0@->Object_0["created"@] is Number
            &&& fields == JsonView::Object(result->Ok_0@->Object_0.remove("created"@))
        },
        Ok(Err(text)) => result matches Err(ByokError::Translation(shown)) && shown@ == text,
        Err(text) => result matches Err(ByokError::Translation(shown)) && shown@ == text,
    }
}

/// Whether the token counts of a body cannot be added.
pub open spec fn counts_overflow(body: Seq<u8>) -> bool {
    match response_counts(body) {
        Some((input, output)) => input + output > 0xffff_ffff_ffff_ffff,
        None => false,
    }
}

/// A body whose counts fit is translated.
pub proof fn bodies_are_completed(
    body: &[u8],
    complete: Result<Json, ByokError>,
    checked: Option<Result<Json, ByokError>>,
)
    requires
        !counts_overflow(body@),
        call_ensures(complete_response, (body,), complete),
        call_ensures(complete_checked_response, (body,), checked),
    ensures
        is_completed(body@, complete),
        checked is Some,
        is_completed(body@, checked->Some_0),
{
}

/// A body is translated unless its token counts overflow; where names are to be renamed back it is
/// read first, and translated as it is written after that.
pub proof fn responses_are_completed(
    body: &[u8],
    raw: Json,
    plain: ResponseStep,
    reading: ResponseStep,
    renamed: ResponseStep,
    fit: bool,
)
    requires
        call_ensures(begin_response, (false, body), plain),
        call_ensures(begin_response, (true, body), reading),
        call_ensures(end_response, (raw,), renamed),
        call_ensures(check_response_counts, (body,), fit),
    ensures
        fit <==> !counts_overflow(body@),
        if counts_overflow(body@) {
            plain is CountsTooLarge
        } else {
            plain matches ResponseStep::Finished(result) && is_completed(body@, result)
        },
        match slice_json(body@) {
            Ok(read) => reading matches ResponseStep::Rename(json) && json@ == read,
            Err(text) => reading matches ResponseStep::Finished(Err(ByokError::Translation(shown)))
                && shown@ == text,
        },
        match json_bytes(raw@) {
            Ok(written) => if counts_overflow(written) {
                renamed is CountsTooLarge
            } else {
                renamed matches ResponseStep::Finished(result) && is_completed(written, result)
            },
            Err(text) => renamed matches ResponseStep::Finished(Err(ByokError::Translation(shown)))
                && shown@ == text,
        },
{
}

} // verus!
