//! The executor: credentials, transports, and requests ready to be sent.
use vstd::prelude::*;
use vstd::utf8::encode_utf8;
use vstd::string::*;
use crate::chat::accepted_request;
use crate::chat::remove_anthropic_incompatible_openai_fields;
use crate::chat::request_body;
use crate::chat::CompletionRequest;
use crate::chat::CompletionRequestView;
use crate::error::ByokError;
use crate::error::ByokErrorView;
use crate::gateway::canonical_request;
use crate::gateway::new_transport;
use crate::gateway::print_config_error;
use crate::gateway::print_translate_error;
use crate::gateway::read_canonical_request;
use crate::gateway::translate_request;
use crate::gateway::translated_body;
use crate::gateway::transport_base_url;
use crate::gateway::transport_headers;
use crate::gateway::transport_outcome;
use crate::gateway::AuthMode;
use crate::gateway::TransportSettings;
use crate::gateway::TransportSettingsView;
use crate::gateway::TransportView;
use crate::headers::fingerprint_headers;
use crate::headers::is_header_text;
use crate::headers::is_sendable;
use crate::headers::list_headers;
use crate::headers::listed_bytes;
use crate::headers::listed_texts;
use crate::headers::request_headers;
use crate::headers::sent_headers;
use crate::headers::values_under;
use crate::headers::visible_texts;
use crate::headers::DeviceProfile;
use crate::headers::ANTHROPIC_VERSION;
use crate::ids::is_uuid_text;
use crate::ids::name_uuid;
use crate::ids::oid_uuid;
use crate::ids::random_uuid;
use crate::json::Json;
use crate::json::JsonView;
use crate::plain_laws::is_translation;
use crate::plain_laws::stands_for;
use crate::plain_laws::the_whole_request_is_translated;
use crate::program::anthropic_beta;
use crate::program::beta_flags;
use crate::program::joined;
use crate::program::ProgramName;
use crate::temperature::fitting_temperature;
use crate::temperature::normalize_temperature_for_thinking;
use crate::temperature::temperature_fits;
use crate::text::concat_text;
use crate::text::trim_end;
use crate::text::trim_end_slashes;
use crate::value::print_json_error;
use crate::value::read_slice;
use crate::value::slice_json;

verus! {

/// Default Anthropic API base URL.
pub const DEFAULT_BASE_URL: &'static str = "https://api.anthropic.com";

/// Credential resolved at request time.
pub enum Credential {
    /// Raw API key.
    ApiKey(String),
    /// OAuth token.
    Bearer(String),
}

/// What a [`Credential`] is.
pub enum CredentialView {
    ApiKey(Seq<char>),
    Bearer(Seq<char>),
}

impl View for Credential {
    type V = CredentialView;

    open spec fn view(&self) -> CredentialView {
        match self {
            Credential::ApiKey(key) => CredentialView::ApiKey(key@),
            Credential::Bearer(token) => CredentialView::Bearer(token@),
        }
    }
}

/// How request cloaking is set up.
pub struct CloakConfig {
    pub enabled: bool,
    pub strict_mode: bool,
    pub sensitive_words: Vec<String>,
}

/// What a [`CloakConfig`] is.
pub struct CloakConfigView {
    pub enabled: bool,
    pub strict_mode: bool,
    pub sensitive_words: Seq<Seq<char>>,
}

impl View for CloakConfig {
    type V = CloakConfigView;

    open spec fn view(&self) -> CloakConfigView {
        CloakConfigView {
            enabled: self.enabled,
            strict_mode: self.strict_mode,
            sensitive_words: self.sensitive_words@.map_values(|word: String| word@),
        }
    }
}

/// Executor for the Anthropic Messages API.
pub struct ClaudeExecutor {
    pub program: ProgramName,
    pub api_key: Option<String>,
    pub base_url: String,
    pub cloak_config: Option<CloakConfig>,
}

/// The cloaking that a request body is to get.
pub struct Cloaking {
    pub config: CloakConfig,
    pub device_id: String,
    pub account_uuid: String,
    pub session_id: String,
    pub entrypoint: String,
}

/// What a [`Cloaking`] is.
pub struct CloakingView {
    pub config: CloakConfigView,
    pub device_id: Seq<char>,
    pub account_uuid: Seq<char>,
    pub session_id: Seq<char>,
    pub entrypoint: Seq<char>,
}

impl View for Cloaking {
    type V = CloakingView;

    open spec fn view(&self) -> CloakingView {
        CloakingView {
            config: self.config@,
            device_id: self.device_id@,
            account_uuid: self.account_uuid@,
            session_id: self.session_id@,
            entrypoint: self.entrypoint@,
        }
    }
}

/// The scope under which a credential's device profile and account are kept.
pub open spec fn scope_of(credential: CredentialView) -> Seq<char> {
    match credential {
        CredentialView::ApiKey(key) => "api_key:"@ + key,
        CredentialView::Bearer(_) => "global"@,
    }
}

/// The scope under which a credential's device profile and account are kept.
pub fn scope_key(credential: &Credential) -> (scope: String)
    ensures
        scope@ == scope_of(credential@),
        match credential {
            Credential::ApiKey(key) => scope@ == "api_key:"@ + key@,
            Credential::Bearer(_) => scope@ == "global"@,
        },
{
    match credential {
        Credential::ApiKey(key) => concat_text("api_key:", key.as_str()),
        Credential::Bearer(_) => "global".to_owned(),
    }
}

/// The cloaking of requests with an OAuth token where none is configured.
pub open spec fn default_cloak_config() -> CloakConfigView {
    CloakConfigView {
        enabled: true,
        strict_mode: true,
        sensitive_words: seq!["OpenCode"@, "opencode"@],
    }
}

/// The cloaking set-up that applies: the configured one where it is enabled, else the default
/// one for OAuth tokens, and none for API keys.
pub open spec fn applied_config(
    configured: Option<CloakConfigView>,
    credential: CredentialView,
) -> Option<CloakConfigView> {
    match configured {
        Some(config) if config.enabled => Some(config),
        _ => match credential {
            CredentialView::Bearer(_) => Some(default_cloak_config()),
            CredentialView::ApiKey(_) => None,
        },
    }
}

/// The cloaking of a request: the set-up that applies, with the identity of the device and of
/// the account.
pub open spec fn applied_cloaking(
    configured: Option<CloakConfigView>,
    credential: CredentialView,
    profile: DeviceProfile,
) -> Option<CloakingView> {
    match applied_config(configured, credential) {
        Some(config) => Some(
            CloakingView {
                config,
                device_id: profile.device_id@,
                account_uuid: oid_uuid(encode_utf8(scope_of(credential))),
                session_id: profile.session_id@,
                entrypoint: "cli"@,
            },
        ),
        None => None,
    }
}

/// The model of an optional value.
pub open spec fn option_view<T: View>(value: Option<T>) -> Option<T::V> {
    match value {
        Some(inner) => Some(inner@),
        None => None,
    }
}

/// What a transport for a credential is made from.
pub open spec fn executor_settings(
    program: Seq<char>,
    base_url: Seq<char>,
    credential: CredentialView,
) -> TransportSettingsView {
    TransportSettingsView {
        secret: match credential {
            CredentialView::ApiKey(key) => key,
            CredentialView::Bearer(token) => token,
        },
        auth_mode: match credential {
            CredentialView::ApiKey(_) => AuthMode::ApiKey,
            CredentialView::Bearer(_) => AuthMode::Bearer,
        },
        base_url,
        version: ANTHROPIC_VERSION@,
        beta: joined(beta_flags(program)),
    }
}

/// The transport of a request with the given identifier, or the text of the error.
pub open spec fn executor_transport(
    program: Seq<char>,
    base_url: Seq<char>,
    credential: CredentialView,
    profile: DeviceProfile,
    request_id: Seq<char>,
) -> Result<TransportView, Seq<char>> {
    transport_outcome(
        executor_settings(program, base_url, credential),
        fingerprint_headers(program, profile, request_id),
    )
}

/// The body that is sent for a request before cloaking, or the text of the error.
pub open spec fn prepared_body(request: CompletionRequestView) -> Result<JsonView, Seq<char>> {
    match canonical_request(JsonView::Object(request_body(accepted_request(request)))) {
        Ok(canonical) => match translated_body(canonical) {
            Ok(bytes) => match slice_json(bytes) {
                Ok(body) => Ok(fitting_temperature(body)),
                Err(text) => Err(text),
            },
            Err(text) => Err(text),
        },
        Err(text) => Err(text),
    }
}

/// A request that is ready to be sent once its body has been cloaked.
pub struct PreparedRequest {
    pub url: String,
    pub headers: Vec<(String, String)>,
    pub body: Json,
    /// Whether tool names are renamed on the way out and back on the way in.
    pub remap_tools: bool,
    pub cloaking: Option<Cloaking>,
    pub stream: bool,
}

/// Whether a request is sent to the endpoint, and with the headers, of a transport.
pub open spec fn goes_through(prepared: PreparedRequest, transport: TransportView) -> bool {
    &&& prepared.url@ == transport.base_url + "/v1/messages"@ + "?beta=true"@
    &&& forall|name: Seq<char>| #[trigger]
        listed_texts(prepared.headers@, name) == visible_texts(
            values_under(transport.headers, name),
        ) + if name == "accept-encoding"@ {
            seq!["identity"@]
        } else {
            Seq::empty()
        }
}

/// What the executor makes of a request: where the transport cannot be made the error is one of
/// configuration, where the body cannot be translated it is one of translation.
pub open spec fn is_prepared(
    executor: ClaudeExecutor,
    credential: CredentialView,
    profile: DeviceProfile,
    request: CompletionRequestView,
    request_id: Seq<char>,
    prepared: Result<PreparedRequest, ByokError>,
) -> bool {
    let made = executor_transport(
        executor.program@,
        executor.base_url@,
        credential,
        profile,
        request_id,
    );
    match (made, prepared_body(request)) {
        (Err(text), _) => prepared matches Err(error) && error@ == ByokErrorView::Config(text),
        (Ok(_), Err(text)) => prepared matches Err(error) && error@ == ByokErrorView::Translation(
            text,
        ),
        (Ok(transport), Ok(body)) => {
            &&& prepared matches Ok(request_out)
            &&& goes_through(request_out, transport)
            &&& request_out.body@ == body
            &&& request_out.remap_tools == (credential is Bearer)
            &&& option_view(request_out.cloaking) == applied_cloaking(
                option_view(executor.cloak_config),
                credential,
                profile,
            )
            &&& request_out.stream == request.stream
        },
    }
}

/// What is needed to get a credential.
pub enum CredentialStep {
    /// The credential is configured.
    Ready(Credential),
    /// An OAuth token has to be fetched.
    FetchToken,
}

impl CloakConfig {
    fn duplicate(&self) -> (copy: CloakConfig)
        ensures
            copy@ == self@,
    {
        let mut words: Vec<String> = Vec::new();
        let mut i: usize = 0;
        while i < self.sensitive_words.len()
            invariant
                i <= self.sensitive_words@.len(),
                words@.len() == i,
                forall|j: int| 0 <= j < i ==> #[trigger] words@[j]@ == self.sensitive_words@[j]@,
            decreases self.sensitive_words@.len() - i,
        {
            words.push(self.sensitive_words[i].clone());
            i += 1;
        }
        assert(words@.map_values(|word: String| word@) =~= self@.sensitive_words);
        CloakConfig {
            enabled: self.enabled,
            strict_mode: self.strict_mode,
            sensitive_words: words,
        }
    }
}

/// The account that a scope stands for, as a stable UUID.
pub fn account_uuid(scope: &str) -> (uuid: String)
    ensures
        uuid@ == oid_uuid(encode_utf8(scope@)),
        is_uuid_text(uuid@, '5'),
{
    name_uuid(scope.as_bytes())
}

impl ClaudeExecutor {
    /// An executor for a base URL, or for the default one. An API key, where there is one, takes
    /// precedence over OAuth tokens.
    pub fn new(
        program: ProgramName,
        api_key: Option<String>,
        base_url: Option<String>,
        cloak_config: Option<CloakConfig>,
    ) -> (executor: ClaudeExecutor)
        ensures
            executor.program == program,
            executor.api_key == api_key,
            executor.base_url@ == trim_end(
                match base_url {
                    Some(url) => url@,
                    None => DEFAULT_BASE_URL@,
                },
                set!['/'],
            ),
            executor.cloak_config == cloak_config,
    {
        let base_url: String = match &base_url {
            Some(url) => trim_end_slashes(url.as_str()),
            None => trim_end_slashes(DEFAULT_BASE_URL),
        };
        ClaudeExecutor { program, api_key, base_url, cloak_config }
    }

    /// The credential: the API key if there is one, otherwise an OAuth token to be fetched.
    pub fn get_credential(&self) -> (step: CredentialStep)
        ensures
            match self.api_key {
                Some(key) => step matches CredentialStep::Ready(credential) && credential@
                    == CredentialView::ApiKey(key@),
                None => step is FetchToken,
            },
    {
        match &self.api_key {
            Some(key) => CredentialStep::Ready(Credential::ApiKey(key.clone())),
            None => CredentialStep::FetchToken,
        }
    }

    /// The transport of a request with a given identifier.
    pub fn build_transport_for(
        &self,
        credential: &Credential,
        fingerprint: &DeviceProfile,
        request_id: &str,
    ) -> (made: Result<aigw::anthropic::Transport, ByokError>)
        requires
            is_sendable(*fingerprint),
            is_header_text(request_id@),
        ensures
            match executor_transport(
                self.program@,
                self.base_url@,
                credential@,
                *fingerprint,
                request_id@,
            ) {
                Ok(view) => made matches Ok(transport) && transport_base_url(transport)
                    == view.base_url && transport_headers(transport) == view.headers,
                Err(text) => made matches Err(error) && error@ == ByokErrorView::Config(text),
            },
    {
        let (secret, auth_mode): (String, AuthMode) = match credential {
            Credential::ApiKey(key) => (key.clone(), AuthMode::ApiKey),
            Credential::Bearer(token) => (token.clone(), AuthMode::Bearer),
        };
        let settings = TransportSettings {
            secret,
            auth_mode,
            base_url: self.base_url.clone(),
            version: ANTHROPIC_VERSION.to_owned(),
            beta: anthropic_beta(&self.program),
        };
        assert(settings@ == executor_settings(self.program@, self.base_url@, credential@));
        match new_transport(settings, request_headers(&self.program, fingerprint, request_id)) {
            Ok(transport) => Ok(transport),
            Err(error) => Err(ByokError::Config(print_config_error(&error))),
        }
    }

    /// The transport of a request with a new random identifier.
    pub fn build_transport(
        &self,
        credential: &Credential,
        fingerprint: &DeviceProfile,
    ) -> (made: Result<aigw::anthropic::Transport, ByokError>)
        requires
            is_sendable(*fingerprint),
        ensures
            exists|request_id: Seq<char>|
                is_uuid_text(request_id, '4') && match #[trigger] executor_transport(
                    self.program@,
                    self.base_url@,
                    credential@,
                    *fingerprint,
                    request_id,
                ) {
                    Ok(view) => made matches Ok(transport) && transport_base_url(transport)
                        == view.base_url && transport_headers(transport) == view.headers,
                    Err(text) => made matches Err(error) && error@ == ByokErrorView::Config(text),
                },
    {
        let request_id = random_uuid();
        assert(is_header_text(request_id@));
        self.build_transport_for(credential, fingerprint, request_id.as_str())
    }

    /// The cloaking that a request gets.
    pub fn cloaking_for(
        &self,
        credential: &Credential,
        fingerprint: &DeviceProfile,
    ) -> (cloaking: Option<Cloaking>)
        ensures
            option_view(cloaking) == applied_cloaking(
                option_view(self.cloak_config),
                credential@,
                *fingerprint,
            ),
            match self.cloak_config {
                Some(config) if config.enabled => cloaking is Some && cloaking->Some_0.config@
                    == config@,
                _ => match credential {
                    Credential::ApiKey(_) => cloaking is None,
                    Credential::Bearer(_) => cloaking is Some && cloaking->Some_0.config@ == (
                    CloakConfigView {
                        enabled: true,
                        strict_mode: true,
                        sensitive_words: seq!["OpenCode"@, "opencode"@],
                    }),
                },
            },
            cloaking matches Some(applied) ==> applied.device_id@ == fingerprint.device_id@
                && applied.session_id@ == fingerprint.session_id@ && applied.entrypoint@ == "cli"@
                && applied.account_uuid@ == oid_uuid(
                encode_utf8(
                    match credential {
                        Credential::ApiKey(key) => "api_key:"@ + key@,
                        Credential::Bearer(_) => "global"@,
                    },
                ),
            ),
    {
        let config: Option<CloakConfig> = match &self.cloak_config {
            Some(config) if config.enabled => Some(config.duplicate()),
            _ => match credential {
                Credential::Bearer(_) => {
                    let words: Vec<String> = vec!["OpenCode".to_owned(), "opencode".to_owned()];
                    assert(words@.map_values(|word: String| word@) =~= seq![
                        "OpenCode"@,
                        "opencode"@,
                    ]);
                    Some(CloakConfig { enabled: true, strict_mode: true, sensitive_words: words })
                },
                Credential::ApiKey(_) => None,
            },
        };
        match config {
            Some(config) => Some(
                Cloaking {
                    config,
                    device_id: fingerprint.device_id.clone(),
                    account_uuid: account_uuid(scope_key(credential).as_str()),
                    session_id: fingerprint.session_id.clone(),
                    entrypoint: "cli".to_owned(),
                },
            ),
            None => None,
        }
    }

    /// The request that is sent, given its translation: the URL, the headers, and the body. The
    /// URL asks for the beta API, and the temperature goes with the thinking setting.
    pub fn assemble(
        &self,
        credential: &Credential,
        fingerprint: &DeviceProfile,
        stream: bool,
        url: &str,
        list: &Vec<(String, Vec<u8>)>,
        body: Json,
    ) -> (prepared: PreparedRequest)
        ensures
            prepared.url@ == url@ + "?beta=true"@,
            forall|name: Seq<char>| #[trigger]
                listed_texts(prepared.headers@, name) == visible_texts(listed_bytes(list@, name))
                    + if name == "accept-encoding"@ {
                    seq!["identity"@]
                } else {
                    Seq::empty()
                },
            prepared.body@ == fitting_temperature(body@),
            temperature_fits(prepared.body@),
            prepared.remap_tools == (credential@ is Bearer),
            option_view(prepared.cloaking) == applied_cloaking(
                option_view(self.cloak_config),
                credential@,
                *fingerprint,
            ),
            prepared.stream == stream,
    {
        let mut body = body;
        normalize_temperature_for_thinking(&mut body);
        PreparedRequest {
            url: concat_text(url, "?beta=true"),
            headers: sent_headers(list),
            body,
            remap_tools: match credential {
                Credential::Bearer(_) => true,
                Credential::ApiKey(_) => false,
            },
            cloaking: self.cloaking_for(credential, fingerprint),
            stream,
        }
    }

    /// Prepares a request with a given identifier.
    pub fn prepare_for(
        &self,
        credential: &Credential,
        fingerprint: &DeviceProfile,
        request: CompletionRequest,
        request_id: &str,
    ) -> (prepared: Result<PreparedRequest, ByokError>)
        requires
            is_sendable(*fingerprint),
            is_header_text(request_id@),
        ensures
            is_prepared(*self, credential@, *fingerprint, request@, request_id@, prepared),
            prepared matches Ok(request_out) ==> temperature_fits(request_out.body@),
            prepared matches Ok(request_out) ==> exists|sent: Map<Seq<char>, JsonView>| #[trigger]
                stands_for(request@, sent) && is_translation(
                    sent,
                    Ok::<JsonView, Seq<char>>(request_out.body@),
                ),
    {
        proof {
            the_whole_request_is_translated(request@);
        }
        let transport = match self.build_transport_for(credential, fingerprint, request_id) {
            Ok(transport) => transport,
            Err(error) => return Err(error),
        };
        let stream: bool = request.stream;
        let mut request = request;
        remove_anthropic_incompatible_openai_fields(&mut request);
        let canonical = match read_canonical_request(request.into_body().into_value()) {
            Ok(canonical) => canonical,
            Err(error) => return Err(ByokError::Translation(print_json_error(&error))),
        };
        let translated = match translate_request(&transport, &canonical) {
            Ok(translated) => translated,
            Err(error) => return Err(ByokError::Translation(print_translate_error(&error))),
        };
        let body = match read_slice(translated.body.as_slice()) {
            Ok(body) => body,
            Err(text) => return Err(ByokError::Translation(text)),
        };
        let list = list_headers(&translated.headers);
        Ok(
            self.assemble(
                credential,
                fingerprint,
                stream,
                translated.url.as_str(),
                &list,
                body,
            ),
        )
    }

    /// Prepares a request with a new random identifier.
    pub fn prepare(
        &self,
        credential: &Credential,
        fingerprint: &DeviceProfile,
        request: CompletionRequest,
    ) -> (prepared: Result<PreparedRequest, ByokError>)
        requires
            is_sendable(*fingerprint),
        ensures
            exists|request_id: Seq<char>|
                is_uuid_text(request_id, '4') && #[trigger] is_prepared(
                    *self,
                    credential@,
                    *fingerprint,
                    request@,
                    request_id,
                    prepared,
                ),
            prepared matches Ok(request_out) ==> temperature_fits(request_out.body@),
            prepared matches Ok(request_out) ==> exists|sent: Map<Seq<char>, JsonView>| #[trigger]
                stands_for(request@, sent) && is_translation(
                    sent,
                    Ok::<JsonView, Seq<char>>(request_out.body@),
                ),
    {
        let request_id = random_uuid();
        assert(is_header_text(request_id@));
        self.prepare_for(credential, fingerprint, request, request_id.as_str())
    }
}

} // verus!
