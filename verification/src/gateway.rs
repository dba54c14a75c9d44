//! The bridge to `aigw`: the transport, and the translation of requests and responses.
use vstd::prelude::*;
use aigw_core::translate::RequestTranslator;
use aigw_core::translate::ResponseTranslator;
use crate::headers::header_contents;
use crate::headers::is_header_text;
use crate::headers::is_small;
use crate::headers::one_value;
use crate::json::member;
use crate::json::JsonView;
use crate::text::starts_with;
use crate::text::trim;
use crate::text::trim_end;
use crate::usage::response_counts_fit;
use crate::value::json_error_text;
use crate::value::value_view;

verus! {

/// `aigw::anthropic::Transport`; what it holds are [`transport_base_url`] and
/// [`transport_headers`].
#[verifier::external_type_specification]
#[verifier::external_body]
pub struct ExTransport(aigw::anthropic::Transport);

/// `aigw::anthropic::TransportConfigError`; what it prints is [`config_error_text`].
#[verifier::external_type_specification]
#[verifier::external_body]
pub struct ExTransportConfigError(aigw::anthropic::TransportConfigError);

/// `aigw_core::error::TranslateError`; what it prints is [`translate_error_text`].
#[verifier::external_type_specification]
#[verifier::external_body]
pub struct ExTranslateError(aigw_core::error::TranslateError);

/// `aigw_core::model::ChatRequest`, the canonical form of a request.
#[verifier::external_type_specification]
#[verifier::external_body]
pub struct ExChatRequest(aigw_core::model::ChatRequest);

/// `aigw_core::model::ChatResponse`, the canonical form of a response.
#[verifier::external_type_specification]
#[verifier::external_body]
pub struct ExChatResponse(aigw_core::model::ChatResponse);

/// The base URL of a transport.
pub uninterp spec fn transport_base_url(transport: aigw::anthropic::Transport) -> Seq<char>;

/// The headers that a transport sends with every request.
pub uninterp spec fn transport_headers(transport: aigw::anthropic::Transport) -> Map<
    Seq<char>,
    Seq<Seq<u8>>,
>;

/// What `aigw::anthropic::TransportConfigError` prints.
pub uninterp spec fn config_error_text(error: aigw::anthropic::TransportConfigError) -> Seq<char>;

/// What `aigw_core::error::TranslateError` prints.
pub uninterp spec fn translate_error_text(error: aigw_core::error::TranslateError) -> Seq<char>;

/// What `serde_json::from_value` reads as a canonical request, or the text of the error.
pub uninterp spec fn canonical_request(body: JsonView) -> Result<
    aigw_core::model::ChatRequest,
    Seq<char>,
>;

/// The body that `aigw` translates a canonical request to, or the text of the error.
pub uninterp spec fn translated_body(request: aigw_core::model::ChatRequest) -> Result<
    Seq<u8>,
    Seq<char>,
>;

/// What `serde_json::to_value` makes of a canonical response, or the text of the error.
pub uninterp spec fn response_json(response: aigw_core::model::ChatResponse) -> Result<
    JsonView,
    Seq<char>,
>;

/// What `aigw` translates the body of a response to, up to the time of creation: the JSON of
/// the canonical response, or the text of the error.
pub uninterp spec fn translated_response(body: Seq<u8>) -> Result<
    Result<JsonView, Seq<char>>,
    Seq<char>,
>;

/// How a credential is sent.
pub enum AuthMode {
    /// In the `x-api-key` header.
    ApiKey,
    /// As a bearer token in the `authorization` header.
    Bearer,
}

/// What a transport is made from.
pub struct TransportSettings {
    pub secret: String,
    pub auth_mode: AuthMode,
    pub base_url: String,
    pub version: String,
    pub beta: String,
}

/// What [`TransportSettings`] are.
pub struct TransportSettingsView {
    pub secret: Seq<char>,
    pub auth_mode: AuthMode,
    pub base_url: Seq<char>,
    pub version: Seq<char>,
    pub beta: Seq<char>,
}

impl View for TransportSettings {
    type V = TransportSettingsView;

    open spec fn view(&self) -> TransportSettingsView {
        TransportSettingsView {
            secret: self.secret@,
            auth_mode: self.auth_mode,
            base_url: self.base_url@,
            version: self.version@,
            beta: self.beta@,
        }
    }
}

/// What a transport holds.
pub struct TransportView {
    pub base_url: Seq<char>,
    pub headers: Map<Seq<char>, Seq<Seq<u8>>>,
}

/// The transport that settings and further headers give, or the text of the error. The secret
/// and the base URL lose the white space around them, and the base URL its last slashes; the
/// further headers take precedence.
pub open spec fn transport_outcome(
    settings: TransportSettingsView,
    extra: Map<Seq<char>, Seq<Seq<u8>>>,
) -> Result<TransportView, Seq<char>> {
    let secret = trim(settings.secret);
    let base_url = trim_end(trim(settings.base_url), set!['/']);
    if secret.len() == 0 {
        Err("api_key is required"@)
    } else if base_url.len() == 0 {
        Err("base_url is required"@)
    } else if !starts_with(base_url, "http://"@) && !starts_with(base_url, "https://"@) {
        Err("invalid base_url: "@ + base_url)
    } else if !is_header_text(secret) {
        Err("api_key contains invalid header characters"@)
    } else if !is_header_text(settings.version) {
        Err("invalid anthropic-version: "@ + settings.version)
    } else if !is_header_text(settings.beta) {
        Err("invalid anthropic-beta: "@ + settings.beta)
    } else {
        Ok(
            TransportView {
                base_url,
                headers: map![
                    "content-type"@ => one_value("application/json"@),
                    "anthropic-version"@ => one_value(settings.version),
                    "anthropic-beta"@ => one_value(settings.beta),
                ].insert(
                    auth_header(settings.auth_mode),
                    one_value(auth_value(settings.auth_mode, secret)),
                ).union_prefer_right(extra),
            },
        )
    }
}

/// The name of the header that a credential is sent in.
pub open spec fn auth_header(mode: AuthMode) -> Seq<char> {
    match mode {
        AuthMode::ApiKey => "x-api-key"@,
        AuthMode::Bearer => "authorization"@,
    }
}

/// The value of the header that a credential is sent in.
pub open spec fn auth_value(mode: AuthMode, secret: Seq<char>) -> Seq<char> {
    match mode {
        AuthMode::ApiKey => secret,
        AuthMode::Bearer => "Bearer "@ + secret,
    }
}

/// `aigw::anthropic::Transport::new` on a configuration with these settings and headers, the
/// default timeout, and the secret as a `secrecy::SecretString`. The call panics on a map with
/// too many headers.
#[verifier::external_body]
pub(crate) fn new_transport(
    settings: TransportSettings,
    extra_headers: http::HeaderMap<http::HeaderValue>,
) -> (made: Result<aigw::anthropic::Transport, aigw::anthropic::TransportConfigError>)
    requires
        is_small(header_contents(extra_headers)),
    ensures
        match made {
            Ok(transport) => transport_outcome(settings@, header_contents(extra_headers)) == Ok::<
                TransportView,
                Seq<char>,
            >(
                TransportView {
                    base_url: transport_base_url(transport),
                    headers: transport_headers(transport),
                },
            ),
            Err(error) => transport_outcome(settings@, header_contents(extra_headers)) == Err::<
                TransportView,
                Seq<char>,
            >(config_error_text(error)),
        },
{
    aigw::anthropic::Transport::new(aigw::anthropic::TransportConfig {
        api_key: secrecy::SecretString::from(settings.secret),
        auth_mode: match settings.auth_mode {
            AuthMode::ApiKey => aigw::anthropic::AuthMode::ApiKey,
            AuthMode::Bearer => aigw::anthropic::AuthMode::Bearer,
        },
        base_url: settings.base_url,
        version: settings.version,
        beta: Some(settings.beta),
        extra_headers,
        ..Default::default()
    })
}

/// `aigw::anthropic::TransportConfigError` as it prints.
#[verifier::external_body]
pub(crate) fn print_config_error(error: &aigw::anthropic::TransportConfigError) -> (text: String)
    ensures
        text@ == config_error_text(*error),
{
    error.to_string()
}

/// `aigw_core::error::TranslateError` as it prints.
#[verifier::external_body]
pub(crate) fn print_translate_error(error: &aigw_core::error::TranslateError) -> (text: String)
    ensures
        text@ == translate_error_text(*error),
{
    error.to_string()
}

/// `serde_json::from_value` for an `aigw_core::model::ChatRequest`.
#[verifier::external_body]
pub(crate) fn read_canonical_request(body: serde_json::Value) -> (read: Result<
    aigw_core::model::ChatRequest,
    serde_json::Error,
>)
    ensures
        match read {
            Ok(request) => canonical_request(value_view(body)) == Ok::<
                aigw_core::model::ChatRequest,
                Seq<char>,
            >(request),
            Err(error) => canonical_request(value_view(body)) == Err::<
                aigw_core::model::ChatRequest,
                Seq<char>,
            >(json_error_text(error)),
        },
{
    serde_json::from_value(body)
}

/// A request as the translator gives it.
pub struct TranslatedRequest {
    pub url: String,
    pub headers: http::HeaderMap<http::HeaderValue>,
    pub body: Vec<u8>,
}

/// `AnthropicRequestTranslator::translate_request` of `aigw`, on a translator made for the
/// transport without a default for the number of tokens: the URL is the messages endpoint of
/// the transport, the headers are those of the transport, and the body is the translation.
#[verifier::external_body]
pub(crate) fn translate_request(
    transport: &aigw::anthropic::Transport,
    request: &aigw_core::model::ChatRequest,
) -> (translated: Result<TranslatedRequest, aigw_core::error::TranslateError>)
    ensures
        match translated {
            Ok(made) => made.url@ == transport_base_url(*transport) + "/v1/messages"@
                && header_contents(made.headers) == transport_headers(*transport)
                && translated_body(*request) == Ok::<Seq<u8>, Seq<char>>(made.body@),
            Err(error) => translated_body(*request) == Err::<Seq<u8>, Seq<char>>(
                translate_error_text(error),
            ),
        },
{
    aigw::anthropic::translate::AnthropicRequestTranslator::new(transport, None)
        .translate_request(request)
        .map(|made| TranslatedRequest {
            url: made.url,
            headers: made.headers,
            body: made.body.to_vec(),
        })
}

/// A response without its time of creation.
pub open spec fn without_created(json: Result<JsonView, Seq<char>>) -> Result<
    JsonView,
    Seq<char>,
> {
    match json {
        Ok(JsonView::Object(members)) => Ok(JsonView::Object(members.remove("created"@))),
        _ => json,
    }
}

/// `AnthropicResponseTranslator::translate_response` of `aigw` for the status OK: apart from the
/// time of creation, a number that is read from the clock, the response is a function of the
/// body. The call adds the token counts of the body as 64-bit numbers.
#[verifier::external_body]
pub(crate) fn translate_response(body: &[u8]) -> (translated: Result<
    aigw_core::model::ChatResponse,
    aigw_core::error::TranslateError,
>)
    requires
        response_counts_fit(body@),
    ensures
        match translated {
            Ok(response) => translated_response(body@) == Ok::<
                Result<JsonView, Seq<char>>,
                Seq<char>,
            >(without_created(response_json(response))) && (response_json(response) matches Ok(
                json,
            ) ==> member(json, "created"@) matches Some(JsonView::Number(_))),
            Err(error) => translated_response(body@) == Err::<
                Result<JsonView, Seq<char>>,
                Seq<char>,
            >(translate_error_text(error)),
        },
{
    aigw::anthropic::translate::AnthropicResponseTranslator.translate_response(
        http::StatusCode::OK,
        body,
    )
}

/// `serde_json::to_value` on an `aigw_core::model::ChatResponse`.
#[verifier::external_body]
pub(crate) fn write_response(response: aigw_core::model::ChatResponse) -> (written: Result<
    serde_json::Value,
    serde_json::Error,
>)
    ensures
        match written {
            Ok(value) => response_json(response) == Ok::<JsonView, Seq<char>>(value_view(value)),
            Err(error) => response_json(response) == Err::<JsonView, Seq<char>>(
                json_error_text(error),
            ),
        },
{
    serde_json::to_value(response)
}

} // verus!
