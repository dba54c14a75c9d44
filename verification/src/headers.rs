//! HTTP headers: the map that holds them, and those that identify the client.
use vstd::prelude::*;
use vstd::utf8::encode_utf8;
use crate::ids::is_uuid_text;
use crate::ids::random_uuid;
use crate::program::is_program_name;
use crate::program::session_header;
use crate::program::session_header_name;
use crate::program::ProgramName;

verus! {

/// Required Anthropic API version header value.
pub const ANTHROPIC_VERSION: &'static str = "2023-06-01";

/// Anthropic SDK package version.
pub const SDK_PACKAGE_VERSION: &'static str = "0.94.0";

/// Node.js runtime version for `X-Stainless-Runtime-Version`.
pub const RUNTIME_VERSION: &'static str = "v24.3.0";

/// What a client tells of itself.
pub struct DeviceProfile {
    pub user_agent: String,
    pub package_version: String,
    pub runtime_version: String,
    pub os: String,
    pub arch: String,
    pub device_id: String,
    pub session_id: String,
}

/// `http::HeaderMap`; what it holds is [`header_contents`].
#[verifier::external_type_specification]
#[verifier::external_body]
#[verifier::reject_recursive_types(T)]
pub struct ExHeaderMap<T>(http::HeaderMap<T>);

/// `http::HeaderValue`; its bytes are [`header_bytes`].
#[verifier::external_type_specification]
#[verifier::external_body]
pub struct ExHeaderValue(http::HeaderValue);

/// `http::header::InvalidHeaderValue`.
#[verifier::external_type_specification]
#[verifier::external_body]
pub struct ExInvalidHeaderValue(http::header::InvalidHeaderValue);

/// `http::HeaderName`; its text is [`header_name_text`].
#[verifier::external_type_specification]
#[verifier::external_body]
pub struct ExHeaderName(http::HeaderName);

/// `http::header::InvalidHeaderName`.
#[verifier::external_type_specification]
#[verifier::external_body]
pub struct ExInvalidHeaderName(http::header::InvalidHeaderName);

/// The text of a header name.
pub uninterp spec fn header_name_text(name: http::HeaderName) -> Seq<char>;

/// The headers that a map holds: the values under each name, in order.
pub uninterp spec fn header_contents(headers: http::HeaderMap<http::HeaderValue>) -> Map<
    Seq<char>,
    Seq<Seq<u8>>,
>;

/// The bytes of a header value.
pub uninterp spec fn header_bytes(value: http::HeaderValue) -> Seq<u8>;

/// Whether a text can be a header value: no control characters but the tab.
pub open spec fn is_header_text(text: Seq<char>) -> bool {
    forall|i: int|
        0 <= i < text.len() ==> #[trigger] text[i] == '\t' || ('\u{20}' <= text[i] && text[i]
            != '\u{7f}')
}

/// Whether a text is a header name in lower case, made of letters, digits and hyphens.
pub open spec fn is_header_name(name: Seq<char>) -> bool {
    &&& 0 < name.len() <= 64
    &&& forall|i: int|
        0 <= i < name.len() ==> 'a' <= #[trigger] name[i] <= 'z' || '0' <= name[i] <= '9'
            || name[i] == '-'
}

/// A number of headers with which a map is still far from its greatest capacity.
pub open spec fn is_small(contents: Map<Seq<char>, Seq<Seq<u8>>>) -> bool {
    contents.dom().finite() && contents.dom().len() < 1000
}

/// `http::HeaderMap::new`: a map without headers.
#[verifier::external_body]
fn no_headers() -> (headers: http::HeaderMap<http::HeaderValue>)
    ensures
        header_contents(headers) =~= Map::empty(),
{
    http::HeaderMap::new()
}

/// `str::parse` for an `http::HeaderValue`: it succeeds on the texts that can be header values,
/// and the value has the bytes of the text.
#[verifier::external_body]
fn parse_header_value(text: &str) -> (parsed: Result<
    http::HeaderValue,
    http::header::InvalidHeaderValue,
>)
    ensures
        parsed is Ok <==> is_header_text(text@),
        parsed matches Ok(value) ==> header_bytes(value) == encode_utf8(text@),
{
    text.parse()
}

/// `http::HeaderName::from_bytes` on the bytes of a text: a header name in lower case is taken as
/// it is.
#[verifier::external_body]
fn parse_header_name(text: &str) -> (parsed: Result<
    http::HeaderName,
    http::header::InvalidHeaderName,
>)
    requires
        is_header_name(text@),
    ensures
        parsed is Ok,
        header_name_text(parsed->Ok_0) == text@,
{
    http::HeaderName::from_bytes(text.as_bytes())
}

/// `http::HeaderMap::insert` under an `http::HeaderName`: the value replaces all values under the
/// name. The call panics on a map that is full.
#[verifier::external_body]
fn insert_value(
    headers: &mut http::HeaderMap<http::HeaderValue>,
    name: http::HeaderName,
    value: http::HeaderValue,
)
    requires
        is_small(header_contents(*old(headers))),
    ensures
        header_contents(*final(headers)) == header_contents(*old(headers)).insert(
            header_name_text(name),
            seq![header_bytes(value)],
        ),
{
    headers.insert(name, value);
}

/// `http::HeaderMap::iter`: each name with each of its values, those of one name in order; the
/// order of the names is left open.
#[verifier::external_body]
pub(crate) fn list_headers(headers: &http::HeaderMap<http::HeaderValue>) -> (list: Vec<
    (String, Vec<u8>),
>)
    ensures
        forall|name: Seq<char>| #[trigger]
            listed_bytes(list@, name) == values_under(header_contents(*headers), name),
{
    headers.iter().map(|(n, v)| (n.as_str().to_owned(), v.as_bytes().to_vec())).collect()
}

/// The values under a name, none where the name is not there.
pub open spec fn values_under(
    contents: Map<Seq<char>, Seq<Seq<u8>>>,
    name: Seq<char>,
) -> Seq<Seq<u8>> {
    if contents.dom().contains(name) {
        contents[name]
    } else {
        Seq::empty()
    }
}

/// The values that a list gives under a name, in order.
pub open spec fn listed_bytes(list: Seq<(String, Vec<u8>)>, name: Seq<char>) -> Seq<Seq<u8>>
    decreases list.len(),
{
    if list.len() == 0 {
        Seq::empty()
    } else if list.last().0@ == name {
        listed_bytes(list.drop_last(), name).push(list.last().1@)
    } else {
        listed_bytes(list.drop_last(), name)
    }
}

/// Puts a header into the map, in place of those under its name.
fn insert_header(
    headers: &mut http::HeaderMap<http::HeaderValue>,
    name: &str,
    text: &str,
)
    requires
        is_header_name(name@),
        is_header_text(text@),
        is_small(header_contents(*old(headers))),
    ensures
        header_contents(*final(headers)) == header_contents(*old(headers)).insert(
            name@,
            seq![encode_utf8(text@)],
        ),
{
    match (parse_header_name(name), parse_header_value(text)) {
        (Ok(name), Ok(value)) => insert_value(headers, name, value),
        // The name can be a header name, and the text a header value.
        _ => {},
    }
}

/// Whether every field of the profile that goes into a header can go there.
pub open spec fn is_sendable(profile: DeviceProfile) -> bool {
    &&& is_header_text(profile.user_agent@)
    &&& is_header_text(profile.session_id@)
    &&& is_header_text(profile.runtime_version@)
    &&& is_header_text(profile.package_version@)
    &&& is_header_text(profile.os@)
    &&& is_header_text(profile.arch@)
}

/// Whether a text can be a header value.
fn check_header_text(text: &str) -> (fit: bool)
    ensures
        fit == is_header_text(text@),
{
    parse_header_value(text).is_ok()
}

/// Whether every field of the profile that goes into a header can go there.
pub fn check_sendable(profile: &DeviceProfile) -> (fit: bool)
    ensures
        fit == is_sendable(*profile),
{
    check_header_text(profile.user_agent.as_str()) && check_header_text(
        profile.session_id.as_str(),
    ) && check_header_text(profile.runtime_version.as_str()) && check_header_text(
        profile.package_version.as_str(),
    ) && check_header_text(profile.os.as_str()) && check_header_text(profile.arch.as_str())
}

/// The names of the headers that identify a client.
pub open spec fn client_names(program: Seq<char>) -> Seq<Seq<char>> {
    seq![
        "anthropic-dangerous-direct-browser-access"@,
        "x-app"@,
        "user-agent"@,
        session_header(program),
        "x-stainless-lang"@,
        "x-stainless-runtime"@,
        "x-stainless-runtime-version"@,
        "x-stainless-package-version"@,
        "x-stainless-os"@,
        "x-stainless-arch"@,
        "x-stainless-retry-count"@,
        "x-stainless-timeout"@,
        "x-client-request-id"@,
    ]
}

/// The names of the headers that a transport sends for itself.
pub open spec fn transport_names() -> Set<Seq<char>> {
    set![
        "x-api-key"@,
        "authorization"@,
        "content-type"@,
        "anthropic-version"@,
        "anthropic-beta"@,
    ]
}

/// The names are header names, no two are the same, and none is one of the transport's.
pub(crate) proof fn lemma_client_names(program: Seq<char>)
    requires
        is_program_name(program),
    ensures
        client_names(program).len() == 13,
        client_names(program).no_duplicates(),
        forall|i: int| 0 <= i < 13 ==> is_header_name(#[trigger] client_names(program)[i]),
        forall|i: int|
            0 <= i < 13 ==> !transport_names().contains(#[trigger] client_names(program)[i]),
{
    reveal_strlit("anthropic-dangerous-direct-browser-access");
    reveal_strlit("x-app");
    reveal_strlit("user-agent");
    reveal_strlit("x-");
    reveal_strlit("-code-session-id");
    reveal_strlit("x-stainless-lang");
    reveal_strlit("x-stainless-runtime");
    reveal_strlit("x-stainless-runtime-version");
    reveal_strlit("x-stainless-package-version");
    reveal_strlit("x-stainless-os");
    reveal_strlit("x-stainless-arch");
    reveal_strlit("x-stainless-retry-count");
    reveal_strlit("x-stainless-timeout");
    reveal_strlit("x-client-request-id");
    reveal_strlit("x-api-key");
    reveal_strlit("authorization");
    reveal_strlit("content-type");
    reveal_strlit("anthropic-version");
    reveal_strlit("anthropic-beta");
    let names = client_names(program);
    let session = session_header(program);
    assert(session.last() == 'd' && session[session.len() - 8] == 's' && session.len() >= 19);
    assert(names[0].len() == 41 && names[1].len() == 5 && names[2].len() == 10);
    assert(names[4].len() == 16 && names[5].len() == 19 && names[6].len() == 27);
    assert(names[7].len() == 27 && names[8].len() == 14 && names[9].len() == 16);
    assert(names[10].len() == 23 && names[11].len() == 19 && names[12].len() == 19);
    assert(names[0].last() == 's' && names[4].last() == 'g' && names[9].last() == 'h');
    assert(names[5].last() == 'e' && names[11].last() == 't' && names[10].last() == 't');
    assert(names[6].last() == 'n' && names[7].last() == 'n');
    assert(names[12].last() == 'd' && names[12][11] == 'q');
    assert(names[6][12] == 'r' && names[7][12] == 'p');
    assert forall|i: int, j: int| 0 <= i < j < 13 implies names[i] != names[j] by {
        if i == 3 || j == 3 {
            let other = if i == 3 {
                j
            } else {
                i
            };
            assert(names[3] == session);
            if other == 12 && session.len() == 19 {
                assert(session[11] == 's');
            }
        }
    }
    assert("x-api-key"@.len() == 9 && "authorization"@.len() == 13);
    assert("content-type"@.len() == 12 && "anthropic-version"@.len() == 17);
    assert("anthropic-beta"@.len() == 14 && "anthropic-beta"@[0] == 'a' && names[8][0] == 'x');
    assert forall|i: int| 0 <= i < 13 implies !transport_names().contains(
        #[trigger] names[i],
    ) by {
        assert(names[3].len() >= 19);
    }
}

/// One header value.
pub open spec fn one_value(text: Seq<char>) -> Seq<Seq<u8>> {
    seq![encode_utf8(text)]
}

/// The headers that identify a client in a request with the given identifier.
pub open spec fn fingerprint_headers(
    program: Seq<char>,
    profile: DeviceProfile,
    request_id: Seq<char>,
) -> Map<Seq<char>, Seq<Seq<u8>>> {
    map![
        "anthropic-dangerous-direct-browser-access"@ => one_value("true"@),
        "x-app"@ => one_value("cli"@),
        "user-agent"@ => one_value(profile.user_agent@),
        session_header(program) => one_value(profile.session_id@),
        "x-stainless-lang"@ => one_value("js"@),
        "x-stainless-runtime"@ => one_value("node"@),
        "x-stainless-runtime-version"@ => one_value(profile.runtime_version@),
        "x-stainless-package-version"@ => one_value(profile.package_version@),
        "x-stainless-os"@ => one_value(profile.os@),
        "x-stainless-arch"@ => one_value(profile.arch@),
        "x-stainless-retry-count"@ => one_value("0"@),
        "x-stainless-timeout"@ => one_value("600"@),
        "x-client-request-id"@ => one_value(request_id),
    ]
}

/// The headers that identify the client in the request with the given identifier.
pub fn request_headers(
    program: &ProgramName,
    profile: &DeviceProfile,
    request_id: &str,
) -> (headers: http::HeaderMap<http::HeaderValue>)
    requires
        is_sendable(*profile),
        is_header_text(request_id@),
    ensures
        header_contents(headers) == fingerprint_headers(program@, *profile, request_id@),
        is_small(header_contents(headers)),
{
    let session = session_header_name(program);
    proof {
        let names = client_names(program@);
        lemma_client_names(program@);
        assert(is_header_name(names[0]) && is_header_name(names[1]) && is_header_name(names[2]));
        assert(is_header_name(names[3]) && is_header_name(names[4]) && is_header_name(names[5]));
        assert(is_header_name(names[6]) && is_header_name(names[7]) && is_header_name(names[8]));
        assert(is_header_name(names[9]) && is_header_name(names[10]));
        assert(is_header_name(names[11]) && is_header_name(names[12]));
        reveal_strlit("true");
        reveal_strlit("cli");
        reveal_strlit("js");
        reveal_strlit("node");
        reveal_strlit("0");
        reveal_strlit("600");
    }
    let mut h = no_headers();
    insert_header(&mut h, "anthropic-dangerous-direct-browser-access", "true");
    insert_header(&mut h, "x-app", "cli");
    insert_header(&mut h, "user-agent", profile.user_agent.as_str());
    // One per client process, stable across requests.
    insert_header(&mut h, session.as_str(), profile.session_id.as_str());
    insert_header(&mut h, "x-stainless-lang", "js");
    insert_header(&mut h, "x-stainless-runtime", "node");
    insert_header(&mut h, "x-stainless-runtime-version", profile.runtime_version.as_str());
    insert_header(&mut h, "x-stainless-package-version", profile.package_version.as_str());
    insert_header(&mut h, "x-stainless-os", profile.os.as_str());
    insert_header(&mut h, "x-stainless-arch", profile.arch.as_str());
    insert_header(&mut h, "x-stainless-retry-count", "0");
    insert_header(&mut h, "x-stainless-timeout", "600");
    insert_header(&mut h, "x-client-request-id", request_id);
    h
}

/// The headers that identify the client, with a new random identifier of the request. They are
/// the same for API keys and OAuth tokens.
pub fn build_fingerprint_headers(
    program: &ProgramName,
    profile: &DeviceProfile,
    _is_api_key: bool,
) -> (headers: http::HeaderMap<http::HeaderValue>)
    requires
        is_sendable(*profile),
    ensures
        exists|request_id: Seq<char>|
            is_uuid_text(request_id, '4') && header_contents(headers) == #[trigger]
                fingerprint_headers(program@, *profile, request_id),
        is_small(header_contents(headers)),
{
    let request_id = random_uuid();
    assert(is_header_text(request_id@));
    request_headers(program, profile, request_id.as_str())
}

/// Whether a byte is a tab or a visible ASCII character.
pub open spec fn is_visible_byte(byte: u8) -> bool {
    byte == 9 || 32 <= byte < 127
}

/// The text of a header value, if it has visible ASCII characters only.
pub open spec fn visible_text(bytes: Seq<u8>) -> Option<Seq<char>> {
    if forall|i: int| 0 <= i < bytes.len() ==> is_visible_byte(#[trigger] bytes[i]) {
        Some(bytes.map_values(|byte: u8| byte as char))
    } else {
        None
    }
}

/// The texts of those header values that have one, in order.
pub open spec fn visible_texts(values: Seq<Seq<u8>>) -> Seq<Seq<char>>
    decreases values.len(),
{
    if values.len() == 0 {
        Seq::empty()
    } else {
        match visible_text(values.last()) {
            Some(text) => visible_texts(values.drop_last()).push(text),
            None => visible_texts(values.drop_last()),
        }
    }
}

/// The texts that a list gives under a name, in order.
pub open spec fn listed_texts(list: Seq<(String, String)>, name: Seq<char>) -> Seq<Seq<char>>
    decreases list.len(),
{
    if list.len() == 0 {
        Seq::empty()
    } else if list.last().0@ == name {
        listed_texts(list.drop_last(), name).push(list.last().1@)
    } else {
        listed_texts(list.drop_last(), name)
    }
}

/// The text of a header value, if it has visible ASCII characters only.
pub fn header_text(bytes: &Vec<u8>) -> (text: Option<String>)
    ensures
        match text {
            Some(text) => visible_text(bytes@) == Some(text@),
            None => visible_text(bytes@) is None,
        },
{
    let mut out: String = String::new();
    let mut i: usize = 0;
    while i < bytes.len()
        invariant
            i <= bytes@.len(),
            out@ == bytes@.take(i as int).map_values(|byte: u8| byte as char),
            forall|j: int| 0 <= j < i ==> is_visible_byte(#[trigger] bytes@[j]),
        decreases bytes@.len() - i,
    {
        let byte: u8 = bytes[i];
        if !(byte == 9 || (32 <= byte && byte < 127)) {
            assert(!is_visible_byte(bytes@[i as int]));
            return None;
        }
        out.push(byte as char);
        assert(out@ =~= bytes@.take(i + 1).map_values(|byte: u8| byte as char));
        i += 1;
    }
    assert(bytes@.take(i as int) =~= bytes@);
    Some(out)
}

/// The headers that a request is sent with, given those of its translation: those with a text,
/// and one that asks for no compression, so that a stream can be read line by line.
pub fn sent_headers(list: &Vec<(String, Vec<u8>)>) -> (sent: Vec<(String, String)>)
    ensures
        forall|name: Seq<char>| #[trigger]
            listed_texts(sent@, name) == visible_texts(listed_bytes(list@, name)) + if name
                == "accept-encoding"@ {
                seq!["identity"@]
            } else {
                Seq::empty()
            },
        sent@.len() > 0,
        sent@.last().0@ == "accept-encoding"@,
{
    let mut sent: Vec<(String, String)> = Vec::new();
    let mut i: usize = 0;
    assert(list@.take(0) =~= Seq::empty());
    while i < list.len()
        invariant
            i <= list@.len(),
            forall|name: Seq<char>| #[trigger]
                listed_texts(sent@, name) == visible_texts(
                    listed_bytes(list@.take(i as int), name),
                ),
        decreases list@.len() - i,
    {
        let ghost before = sent@;
        let ghost seen = list@.take(i as int);
        let ghost next = list@.take(i + 1);
        assert(next.drop_last() =~= seen);
        assert(next.last() == list@[i as int]);
        match header_text(&list[i].1) {
            Some(text) => {
                let name = list[i].0.clone();
                sent.push((name, text));
                assert(sent@.drop_last() =~= before);
                assert forall|name: Seq<char>| #[trigger]
                    listed_texts(sent@, name) == visible_texts(listed_bytes(next, name)) by {
                    assert(listed_texts(before, name) == visible_texts(listed_bytes(seen, name)));
                    if name == next.last().0@ {
                        let values = listed_bytes(next, name);
                        assert(values.drop_last() =~= listed_bytes(seen, name));
                    }
                }
            },
            None => {
                assert forall|name: Seq<char>| #[trigger]
                    listed_texts(sent@, name) == visible_texts(listed_bytes(next, name)) by {
                    if name == next.last().0@ {
                        let values = listed_bytes(next, name);
                        assert(values.drop_last() =~= listed_bytes(seen, name));
                    }
                }
            },
        }
        i += 1;
    }
    assert(list@.take(i as int) =~= list@);
    let ghost before = sent@;
    sent.push(("accept-encoding".to_owned(), "identity".to_owned()));
    assert(sent@.drop_last() =~= before);
    assert forall|name: Seq<char>| #[trigger]
        listed_texts(sent@, name) == visible_texts(listed_bytes(list@, name)) + if name
            == "accept-encoding"@ {
            seq!["identity"@]
        } else {
            Seq::empty()
        } by {
        assert(listed_texts(before, name) == visible_texts(listed_bytes(list@, name)));
    }
    sent
}

} // verus!
