//! What holds of the library as a whole.
use vstd::prelude::*;
use vstd::utf8::encode_utf8;
use vstd::utf8::is_ascii_chars;
use vstd::utf8::is_ascii_chars_encode_utf8;
use crate::chat::accepted_request;
use crate::chat::canonical_thinking;
use crate::chat::rejected_fields;
use crate::chat::request_body;
use crate::chat::CompletionRequestView;
use crate::executor::applied_cloaking;
use crate::executor::applied_config;
use crate::executor::executor_settings;
use crate::executor::executor_transport;
use crate::executor::scope_of;
use crate::executor::CloakConfigView;
use crate::executor::CredentialView;
use crate::headers::client_names;
use crate::headers::fingerprint_headers;
use crate::headers::is_header_text;
use crate::headers::is_visible_byte;
use crate::headers::lemma_client_names;
use crate::headers::one_value;
use crate::headers::transport_names;
use crate::headers::visible_text;
use crate::headers::visible_texts;
use crate::headers::DeviceProfile;
use crate::headers::ANTHROPIC_VERSION;
use crate::json::member;
use crate::json::JsonView;
use crate::program::beta_flags;
use crate::program::is_program_name;
use crate::program::joined;
use crate::program::session_header;
use crate::sse::after_line;
use crate::sse::first_line;
use crate::sse::has_line;
use crate::sse::line_feed;
use crate::sse::next_payload;
use crate::sse::payload;
use crate::sse::payloads;
use crate::sse::text_payload;
use crate::sse::unread;
use crate::text::lemma_trim_end;
use crate::text::starts_with;
use crate::text::trim;
use crate::text::trim_end;

verus! {

/// Trimming a second time changes nothing.
pub proof fn trimming_is_idempotent(text: Seq<char>, set: Set<char>)
    ensures
        trim_end(trim_end(text, set), set) == trim_end(text, set),
{
    lemma_trim_end(text, set);
}

/// A base URL without its last slashes ends in none.
pub proof fn base_url_ends_in_no_slash(url: Seq<char>)
    ensures
        trim_end(url, set!['/']).len() > 0 ==> trim_end(url, set!['/']).last() != '/',
{
    lemma_trim_end(url, set!['/']);
}

/// A thinking setting in canonical form names its mode.
pub proof fn canonical_thinking_has_a_mode(extra: Map<Seq<char>, JsonView>)
    ensures
        canonical_thinking(extra).dom().contains("thinking"@) ==> member(
            canonical_thinking(extra)["thinking"@],
            "mode"@,
        ) is Some,
{
}

/// Putting the thinking setting into canonical form a second time changes nothing.
pub proof fn canonical_thinking_is_idempotent(extra: Map<Seq<char>, JsonView>)
    ensures
        canonical_thinking(canonical_thinking(extra)) == canonical_thinking(extra),
{
    canonical_thinking_has_a_mode(extra);
}

/// Canonical form concerns the thinking setting alone.
pub proof fn canonical_thinking_keeps_the_rest(extra: Map<Seq<char>, JsonView>, key: Seq<char>)
    requires
        key != "thinking"@,
    ensures
        canonical_thinking(extra).dom().contains(key) == extra.dom().contains(key),
        extra.dom().contains(key) ==> canonical_thinking(extra)[key] == extra[key],
{
}

/// The names of the fields are what they read as.
proof fn lemma_field_names()
    ensures
        !rejected_fields().contains("model"@),
        !rejected_fields().contains("messages"@),
        !rejected_fields().contains("stream"@),
        !rejected_fields().contains("thinking"@),
        "model"@ != "messages"@,
        "model"@ != "stream"@,
        "messages"@ != "stream"@,
        "thinking"@ != "model"@,
        "thinking"@ != "messages"@,
        "thinking"@ != "stream"@,
{
    reveal_strlit("model");
    reveal_strlit("messages");
    reveal_strlit("stream");
    reveal_strlit("thinking");
    reveal_strlit("stream_options");
    reveal_strlit("temperature");
    reveal_strlit("top_p");
    reveal_strlit("n");
    reveal_strlit("reasoning_effort");
    reveal_strlit("reasoning");
    reveal_strlit("think");
    reveal_strlit("thinking_config");
    assert("model"@[0] == 'm' && "messages"@[1] == 'e' && "stream"@[0] == 's');
    assert("model"@[1] == 'o');
    assert("temperature"@[0] == 't' && "thinking"@[0] == 't');
    assert("reasoning"@[0] == 'r' && "reasoning_effort"@[0] == 'r');
    assert("n"@[0] == 'n' && "top_p"@[0] == 't');
    assert("think"@[0] == 't' && "thinking_config"@[0] == 't');
    assert("thinking"@.len() == 8 && "think"@.len() == 5 && "thinking_config"@.len() == 15);
    assert("stream_options"@.len() == 14 && "stream"@.len() == 6);
}

/// No field that the Anthropic API rejects is in the body that is translated.
pub proof fn no_rejected_field_is_translated(request: CompletionRequestView, key: Seq<char>)
    requires
        rejected_fields().contains(key),
    ensures
        !request_body(accepted_request(request)).dom().contains(key),
{
    lemma_field_names();
    canonical_thinking_keeps_the_rest(request.extra.remove_keys(rejected_fields()), key);
}

/// Every other field is translated as it was given, but for the messages and the thinking
/// setting.
pub proof fn other_fields_are_translated(request: CompletionRequestView, key: Seq<char>)
    requires
        !rejected_fields().contains(key),
        key != "messages"@,
        key != "thinking"@,
    ensures
        request_body(accepted_request(request)).dom().contains(key) == request_body(
            request,
        ).dom().contains(key),
        request_body(request).dom().contains(key) ==> request_body(accepted_request(request))[key]
            == request_body(request)[key],
{
    canonical_thinking_keeps_the_rest(request.extra.remove_keys(rejected_fields()), key);
}

/// Each message is translated without its cache marker, and with all its other members.
pub proof fn messages_lose_their_markers(
    request: CompletionRequestView,
    i: int,
    key: Seq<char>,
)
    requires
        0 <= i < request.messages.len(),
    ensures
        accepted_request(request).messages.len() == request.messages.len(),
        member(accepted_request(request).messages[i], key) == if key == "cache_control"@ {
            None
        } else {
            member(request.messages[i], key)
        },
{
}

/// Preparing the fields of a request a second time changes nothing.
pub proof fn accepting_is_idempotent(request: CompletionRequestView)
    ensures
        accepted_request(accepted_request(request)) == accepted_request(request),
{
    lemma_field_names();
    let once = accepted_request(request);
    let twice = accepted_request(once);
    let kept = request.extra.remove_keys(rejected_fields());
    assert(once.extra.remove_keys(rejected_fields()) =~= once.extra);
    canonical_thinking_is_idempotent(kept);
    assert forall|i: int| 0 <= i < once.messages.len() implies twice.messages[i]
        == once.messages[i] by {
        match request.messages[i] {
            JsonView::Object(members) => {
                let bare = members.remove("cache_control"@);
                assert(bare.remove("cache_control"@) =~= bare);
            },
            _ => {},
        }
    }
    assert(twice.messages =~= once.messages);
}

/// The scope of an OAuth token is no scope of an API key.
pub proof fn scopes_of_keys_and_tokens_differ(key: Seq<char>, token: Seq<char>)
    ensures
        scope_of(CredentialView::ApiKey(key)) != scope_of(CredentialView::Bearer(token)),
{
    reveal_strlit("api_key:");
    reveal_strlit("global");
    assert(scope_of(CredentialView::ApiKey(key))[0] == 'a');
    assert("global"@[0] == 'g');
}

/// Different API keys have different scopes.
pub proof fn scopes_of_keys_are_distinct(a: Seq<char>, b: Seq<char>)
    requires
        scope_of(CredentialView::ApiKey(a)) == scope_of(CredentialView::ApiKey(b)),
    ensures
        a == b,
{
    let n = "api_key:"@.len() as int;
    assert(a =~= ("api_key:"@ + a).skip(n));
    assert(b =~= ("api_key:"@ + b).skip(n));
}

/// Requests with an OAuth token are always cloaked; those with an API key only where cloaking
/// is configured and enabled, and then as it is configured.
pub proof fn cloaking_follows_the_credential(
    configured: Option<CloakConfigView>,
    credential: CredentialView,
    profile: DeviceProfile,
)
    ensures
        credential is Bearer ==> applied_cloaking(configured, credential, profile) is Some,
        credential is ApiKey ==> (applied_cloaking(configured, credential, profile) is Some <==> (
        configured matches Some(config) && config.enabled)),
        configured matches Some(config) && config.enabled ==> applied_config(configured, credential)
            == configured,
        applied_config(configured, credential) matches Some(config) ==> config.enabled,
{
}

/// Texts that can be header values can be one header value together.
proof fn lemma_joined_header_text(parts: Seq<Seq<char>>)
    requires
        forall|i: int| 0 <= i < parts.len() ==> is_header_text(#[trigger] parts[i]),
    ensures
        is_header_text(joined(parts)),
    decreases parts.len(),
{
    reveal_strlit(",");
    if parts.len() > 1 {
        let rest = parts.drop_last();
        assert forall|i: int| 0 <= i < rest.len() implies is_header_text(#[trigger] rest[i]) by {
            assert(rest[i] == parts[i]);
        }
        lemma_joined_header_text(rest);
        assert(is_header_text(parts.last())) by {
            assert(parts.last() == parts[parts.len() - 1]);
        }
    } else if parts.len() == 1 {
        assert(is_header_text(parts[0]));
    }
}

/// The beta flags are what they read as.
proof fn lemma_beta_flags(program: Seq<char>)
    requires
        is_program_name(program),
    ensures
        forall|i: int| 0 <= i < 11 ==> is_flag(#[trigger] beta_flags(program)[i]),
        forall|i: int|
            0 <= i < 11 ==> #[trigger] beta_flags(program)[i] != "prompt-caching-2024-07-31"@,
{
    reveal_strlit("-code-20250219");
    reveal_strlit("oauth-2025-04-20");
    reveal_strlit("interleaved-thinking-2025-05-14");
    reveal_strlit("thinking-token-count-2026-05-13");
    reveal_strlit("context-management-2025-06-27");
    reveal_strlit("prompt-caching-scope-2026-01-05");
    reveal_strlit("mid-conversation-system-2026-04-07");
    reveal_strlit("advisor-tool-2026-03-01");
    reveal_strlit("effort-2025-11-24");
    reveal_strlit("fallback-credit-2026-06-01");
    reveal_strlit("extended-cache-ttl-2025-04-11");
    reveal_strlit("prompt-caching-2024-07-31");
    assert((program + "-code-20250219"@).last() == '9');
    assert("prompt-caching-2024-07-31"@.last() == '1');
}

/// Whether a text can be one flag of a list: letters, digits and hyphens, and no comma.
pub open spec fn is_flag(text: Seq<char>) -> bool {
    text.len() > 0 && forall|i: int|
        0 <= i < text.len() ==> 'a' <= #[trigger] text[i] <= 'z' || '0' <= text[i] <= '9'
            || text[i] == '-'
}

/// The beta features are those of the program and of OAuth among others, whatever the credential;
/// the old flag of prompt caching, which the API rejects, is none of them. No flag holds the comma
/// that stands between them.
pub proof fn beta_features_are_accepted(
    program: Seq<char>,
    base_url: Seq<char>,
    credential: CredentialView,
)
    requires
        is_program_name(program),
    ensures
        executor_settings(program, base_url, credential).beta == joined(beta_flags(program)),
        beta_flags(program).contains(program + "-code-20250219"@),
        beta_flags(program).contains("oauth-2025-04-20"@),
        !beta_flags(program).contains("prompt-caching-2024-07-31"@),
        forall|flag: Seq<char>| #[trigger] beta_flags(program).contains(flag) ==> is_flag(flag),
{
    lemma_beta_flags(program);
    assert(beta_flags(program)[0] == program + "-code-20250219"@);
    assert(beta_flags(program)[1] == "oauth-2025-04-20"@);
}

/// The values that every transport sends can be sent.
pub(crate) proof fn lemma_fixed_values(program: Seq<char>)
    requires
        is_program_name(program),
    ensures
        is_header_text(ANTHROPIC_VERSION@),
        is_header_text(joined(beta_flags(program))),
{
    reveal_strlit("2023-06-01");
    lemma_beta_flags(program);
    assert forall|i: int| 0 <= i < 11 implies is_header_text(
        #[trigger] beta_flags(program)[i],
    ) by {
        assert(is_flag(beta_flags(program)[i]));
    }
    lemma_joined_header_text(beta_flags(program));
}

/// A transport can be made exactly where the credential, without the white space around it, is
/// not empty and can be sent, and the base URL is one of HTTP.
pub proof fn when_a_transport_can_be_made(
    program: Seq<char>,
    base_url: Seq<char>,
    credential: CredentialView,
    profile: DeviceProfile,
    request_id: Seq<char>,
)
    requires
        is_program_name(program),
    ensures
        executor_transport(program, base_url, credential, profile, request_id) is Ok <==> {
            let secret = trim(executor_settings(program, base_url, credential).secret);
            let url = trim_end(trim(base_url), set!['/']);
            &&& secret.len() > 0
            &&& is_header_text(secret)
            &&& starts_with(url, "http://"@) || starts_with(url, "https://"@)
        },
{
    lemma_fixed_values(program);
    reveal_strlit("http://");
    reveal_strlit("https://");
}

/// The names of the headers of a transport are what they read as.
pub(crate) proof fn lemma_transport_names()
    ensures
        "x-api-key"@ != "authorization"@,
        "x-api-key"@ != "content-type"@,
        "x-api-key"@ != "anthropic-version"@,
        "x-api-key"@ != "anthropic-beta"@,
        "authorization"@ != "content-type"@,
        "authorization"@ != "anthropic-version"@,
        "authorization"@ != "anthropic-beta"@,
        "content-type"@ != "anthropic-version"@,
        "content-type"@ != "anthropic-beta"@,
        "anthropic-version"@ != "anthropic-beta"@,
{
    reveal_strlit("x-api-key");
    reveal_strlit("authorization");
    reveal_strlit("content-type");
    reveal_strlit("anthropic-version");
    reveal_strlit("anthropic-beta");
    assert("x-api-key"@[0] == 'x');
    assert("authorization"@[0] == 'a' && "authorization"@[1] == 'u');
    assert("content-type"@[0] == 'c');
    assert("anthropic-version"@[1] == 'n' && "anthropic-beta"@[1] == 'n');
    assert("anthropic-version"@.len() == 17 && "anthropic-beta"@.len() == 14);
    assert("anthropic-version"@[0] == 'a' && "anthropic-beta"@[0] == 'a');
}

/// A client is identified by exactly thirteen headers with one value each, whatever its profile,
/// and none of them is one of the transport's own. The session is in the header of the program.
pub proof fn thirteen_headers_identify_the_client(
    program: Seq<char>,
    profile: DeviceProfile,
    request_id: Seq<char>,
)
    requires
        is_program_name(program),
    ensures
        ({
            let headers = fingerprint_headers(program, profile, request_id);
            &&& headers.dom() == client_names(program).to_set()
            &&& headers.dom().len() == 13
            &&& headers.dom().disjoint(transport_names())
            &&& forall|name: Seq<char>| #[trigger]
                headers.dom().contains(name) ==> headers[name].len() == 1
            &&& headers[session_header(program)] == one_value(profile.session_id@)
        }),
{
    let names = client_names(program);
    let headers = fingerprint_headers(program, profile, request_id);
    lemma_client_names(program);
    names.unique_seq_to_set();
    assert forall|name: Seq<char>| headers.dom().contains(name) == names.contains(name) by {
        assert(names[0] == "anthropic-dangerous-direct-browser-access"@);
        assert(names[1] == "x-app"@ && names[2] == "user-agent"@);
        assert(names[3] == session_header(program) && names[4] == "x-stainless-lang"@);
        assert(names[5] == "x-stainless-runtime"@ && names[6] == "x-stainless-runtime-version"@);
        assert(names[7] == "x-stainless-package-version"@ && names[8] == "x-stainless-os"@);
        assert(names[9] == "x-stainless-arch"@ && names[10] == "x-stainless-retry-count"@);
        assert(names[11] == "x-stainless-timeout"@ && names[12] == "x-client-request-id"@);
    }
    assert(headers.dom() =~= names.to_set());
    assert forall|i: int| 4 <= i < 13 implies #[trigger] names[i] != names[3] by {}
    assert(names[4] != names[3] && names[5] != names[3] && names[6] != names[3]);
    assert(names[7] != names[3] && names[8] != names[3] && names[9] != names[3]);
    assert(names[10] != names[3] && names[11] != names[3] && names[12] != names[3]);
}

/// An API key is sent in `x-api-key` and an OAuth token as a bearer token in `authorization`,
/// and neither is sent in the other way.
pub proof fn credentials_are_sent_in_their_header(
    program: Seq<char>,
    base_url: Seq<char>,
    credential: CredentialView,
    profile: DeviceProfile,
    request_id: Seq<char>,
)
    requires
        is_program_name(program),
        executor_transport(program, base_url, credential, profile, request_id) is Ok,
    ensures
        ({
            let headers = executor_transport(
                program,
                base_url,
                credential,
                profile,
                request_id,
            )->Ok_0.headers;
            match credential {
                CredentialView::ApiKey(key) => {
                    &&& headers.dom().contains("x-api-key"@)
                    &&& headers["x-api-key"@] == one_value(trim(key))
                    &&& !headers.dom().contains("authorization"@)
                },
                CredentialView::Bearer(token) => {
                    &&& headers.dom().contains("authorization"@)
                    &&& headers["authorization"@] == one_value("Bearer "@ + trim(token))
                    &&& !headers.dom().contains("x-api-key"@)
                },
            }
        }),
{
    lemma_transport_names();
    thirteen_headers_identify_the_client(program, profile, request_id);
    assert(transport_names().contains("x-api-key"@));
    assert(transport_names().contains("authorization"@));
}

/// The headers that identify the client are sent with every credential.
pub proof fn every_request_identifies_the_client(
    program: Seq<char>,
    base_url: Seq<char>,
    credential: CredentialView,
    profile: DeviceProfile,
    request_id: Seq<char>,
    name: Seq<char>,
)
    requires
        executor_transport(program, base_url, credential, profile, request_id) is Ok,
        fingerprint_headers(program, profile, request_id).dom().contains(name),
    ensures
        ({
            let headers = executor_transport(
                program,
                base_url,
                credential,
                profile,
                request_id,
            )->Ok_0.headers;
            headers.dom().contains(name) && headers[name] == fingerprint_headers(
                program,
                profile,
                request_id,
            )[name]
        }),
{
}

/// A header text of visible ASCII characters arrives as it was given.
pub proof fn visible_texts_are_sent_unchanged(text: Seq<char>)
    requires
        forall|i: int| 0 <= i < text.len() ==> #[trigger] text[i] == '\t' || ' ' <= text[i] <= '~',
    ensures
        visible_texts(one_value(text)) == seq![text],
{
    assert(is_ascii_chars(text));
    is_ascii_chars_encode_utf8(text);
    let bytes = encode_utf8(text);
    assert forall|i: int| 0 <= i < bytes.len() implies is_visible_byte(#[trigger] bytes[i]) by {
        assert(text[i] as u8 == bytes[i]);
    }
    assert(bytes.map_values(|byte: u8| byte as char) =~= text) by {
        assert forall|i: int| 0 <= i < bytes.len() implies bytes[i] as char == text[i] by {
            assert(text[i] as u8 == bytes[i]);
        }
    }
    assert(visible_text(bytes) == Some(text));
    let values = one_value(text);
    assert(values.drop_last() =~= Seq::empty());
    assert(visible_texts(values.drop_last()) =~= Seq::empty());
    assert(visible_texts(values) =~= seq![text]);
}

/// A whole line stays the first one when bytes are added behind it.
proof fn lemma_line_feed_extends(a: Seq<u8>, b: Seq<u8>)
    requires
        has_line(a),
    ensures
        line_feed(a + b) == line_feed(a),
        has_line(a + b),
        first_line(a + b) == first_line(a),
        after_line(a + b) == after_line(a) + b,
    decreases a.len(),
{
    if a[0] != 0x0a {
        assert((a + b).drop_first() =~= a.drop_first() + b);
        lemma_line_feed_extends(a.drop_first(), b);
    }
    assert(first_line(a + b) =~= first_line(a));
    assert(after_line(a + b) =~= after_line(a) + b);
}

/// The payloads of a stream do not depend on where it is cut: those of the first part, then
/// those of what the first part left unread together with the second.
pub proof fn payloads_do_not_depend_on_a_cut(a: Seq<u8>, b: Seq<u8>)
    ensures
        payloads(a + b) == payloads(a) + payloads(unread(a) + b),
        unread(a + b) == unread(unread(a) + b),
    decreases a.len(),
{
    if has_line(a) {
        lemma_line_feed_extends(a, b);
        payloads_do_not_depend_on_a_cut(after_line(a), b);
        assert(payloads(a + b) =~= payloads(a) + payloads(unread(a) + b));
    } else {
        assert(payloads(a + b) =~= payloads(a) + payloads(unread(a) + b));
    }
}

/// The payloads that come out when a stream is fed chunk by chunk and read as far as possible
/// after each.
pub open spec fn chunked_payloads(pending: Seq<u8>, chunks: Seq<Seq<u8>>) -> Seq<Seq<char>>
    decreases chunks.len(),
{
    if chunks.len() == 0 {
        payloads(pending)
    } else {
        payloads(pending) + chunked_payloads(
            unread(pending) + chunks.first(),
            chunks.drop_first(),
        )
    }
}

/// The payloads of a stream do not depend on how it is cut into chunks.
pub proof fn payloads_do_not_depend_on_chunks(pending: Seq<u8>, chunks: Seq<Seq<u8>>)
    ensures
        chunked_payloads(pending, chunks) == payloads(pending + chunks.flatten()),
    decreases chunks.len(),
{
    if chunks.len() == 0 {
        assert(pending + chunks.flatten() =~= pending);
    } else {
        let rest = chunks.drop_first();
        let joined = unread(pending) + chunks.first();
        payloads_do_not_depend_on_chunks(joined, rest);
        payloads_do_not_depend_on_a_cut(pending, chunks.flatten());
        assert(chunks.flatten() == chunks.first() + rest.flatten());
        assert(joined + rest.flatten() =~= unread(pending) + chunks.flatten());
    }
}

/// Taking one payload after the other gives all payloads, in order.
pub proof fn payloads_come_one_by_one(bytes: Seq<u8>)
    ensures
        payloads(bytes) == match next_payload(bytes) {
            Some((data, rest)) => seq![data] + payloads(rest),
            None => Seq::empty(),
        },
        next_payload(bytes) matches Some((data, rest)) ==> unread(rest) == unread(bytes)
            && rest.len() < bytes.len(),
    decreases bytes.len(),
{
    if has_line(bytes) && payload(first_line(bytes)) is None {
        payloads_come_one_by_one(after_line(bytes));
    }
}

/// What is left unread holds no whole line and no payload.
pub proof fn unread_bytes_hold_no_line(bytes: Seq<u8>)
    ensures
        !has_line(unread(bytes)),
        payloads(unread(bytes)) == Seq::<Seq<char>>::empty(),
        next_payload(unread(bytes)) is None,
    decreases bytes.len(),
{
    if has_line(bytes) {
        unread_bytes_hold_no_line(after_line(bytes));
    }
}

/// A data line carries the payload that was written into it, with either line ending.
pub proof fn data_lines_carry_their_payload(data: Seq<char>)
    requires
        data.len() > 0 ==> data.last() != '\r' && data.last() != '\n',
    ensures
        text_payload("data: "@ + data + seq!['\n']) == Some(data),
        text_payload("data: "@ + data + seq!['\r', '\n']) == Some(data),
{
    let ends = set!['\r', '\n'];
    let text = "data: "@ + data;
    reveal_strlit("data: ");
    assert(text.len() > 0 && !ends.contains(text.last()));
    assert(trim_end(text, ends) == text);
    assert((text + seq!['\n']).drop_last() =~= text);
    assert(trim_end(text + seq!['\n'], ends) == text);
    assert((text + seq!['\r', '\n']).drop_last() =~= text + seq!['\r']);
    assert((text + seq!['\r']).drop_last() =~= text);
    assert(trim_end(text + seq!['\r'], ends) == text);
    assert(trim_end(text + seq!['\r', '\n'], ends) == text);
    assert(text.take("data: "@.len() as int) =~= "data: "@);
    assert(text.skip("data: "@.len() as int) =~= data);
}

} // verus!
