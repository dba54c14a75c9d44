//! Chat requests in the `OpenAI` format, and what has to go before they are translated.
use vstd::prelude::*;
use crate::json::array_view;
use crate::json::entries_view;
use crate::json::json_view;
use crate::json::lemma_array_index;
use crate::json::member;
use crate::json::text_member;
use crate::json::Json;
use crate::json::JsonObject;
use crate::json::JsonView;
use crate::text::same_text;

verus! {

/// A chat completion request: the fields every request has, and all others by name.
pub struct CompletionRequest {
    pub model: String,
    pub messages: Vec<Json>,
    pub stream: bool,
    pub extra: JsonObject,
}

/// What a [`CompletionRequest`] is.
pub struct CompletionRequestView {
    pub model: Seq<char>,
    pub messages: Seq<JsonView>,
    pub stream: bool,
    pub extra: Map<Seq<char>, JsonView>,
}

impl View for CompletionRequest {
    type V = CompletionRequestView;

    open spec fn view(&self) -> CompletionRequestView {
        CompletionRequestView {
            model: self.model@,
            messages: array_view(self.messages@),
            stream: self.stream,
            extra: self.extra@,
        }
    }
}

/// The members of the body of a request: its own fields, and the extra ones over them.
pub open spec fn request_body(request: CompletionRequestView) -> Map<Seq<char>, JsonView> {
    map![
        "model"@ => JsonView::Text(request.model),
        "messages"@ => JsonView::Array(request.messages),
        "stream"@ => JsonView::Bool(request.stream),
    ].union_prefer_right(request.extra)
}

/// The names of the fields that the Anthropic API rejects.
pub open spec fn rejected_fields() -> Set<Seq<char>> {
    set![
        "stream_options"@,
        "temperature"@,
        "top_p"@,
        "n"@,
        "reasoning_effort"@,
        "reasoning"@,
        "think"@,
        "thinking_config"@,
    ]
}

/// The canonical thinking setting for a mode.
pub open spec fn thinking_mode(mode: Seq<char>) -> JsonView {
    JsonView::Object(map!["mode"@ => JsonView::Text(mode)])
}

/// The fields with `thinking` in canonical form. A setting that names its `mode` is canonical
/// already; one that has a known `type` is rewritten; any other one is dropped.
pub open spec fn canonical_thinking(extra: Map<Seq<char>, JsonView>) -> Map<
    Seq<char>,
    JsonView,
> {
    let key = "thinking"@;
    if !extra.dom().contains(key) || member(extra[key], "mode"@) is Some {
        extra
    } else {
        match text_member(extra[key], "type"@) {
            Some(kind) => if kind == "disabled"@ || kind == "none"@ {
                extra.insert(key, thinking_mode("disabled"@))
            } else if kind == "auto"@ || kind == "adaptive"@ {
                extra.insert(key, thinking_mode("auto"@))
            } else {
                extra.remove(key)
            },
            None => extra.remove(key),
        }
    }
}

/// A message without its `cache_control` marker.
pub open spec fn unmarked_message(message: JsonView) -> JsonView {
    match message {
        JsonView::Object(members) => JsonView::Object(members.remove("cache_control"@)),
        _ => message,
    }
}

/// The request that is translated in place of a given one.
pub open spec fn accepted_request(request: CompletionRequestView) -> CompletionRequestView {
    CompletionRequestView {
        messages: request.messages.map_values(|message: JsonView| unmarked_message(message)),
        extra: canonical_thinking(request.extra.remove_keys(rejected_fields())),
        ..request
    }
}

/// The object with one text member.
fn text_object(key: &str, text: &str) -> (object: Json)
    ensures
        object@ == JsonView::Object(map![key@ => JsonView::Text(text@)]),
{
    let mut object = JsonObject::new();
    object.insert(key.to_owned(), Json::Text(text.to_owned()));
    assert(object@ =~= map![key@ => JsonView::Text(text@)]);
    Json::Object(object)
}

/// Puts the `thinking` field into canonical form, or drops it.
pub fn normalize_opencode_thinking(extra: &mut JsonObject)
    ensures
        final(extra)@ == canonical_thinking(old(extra)@),
{
    let mode: Option<&str> = match extra.get("thinking") {
        None => return,
        Some(thinking) => {
            if thinking.get("mode").is_some() {
                return;
            }
            let kind: Option<&str> = match thinking.get("type") {
                Some(kind) => kind.as_text(),
                None => None,
            };
            match kind {
                Some(kind) => if same_text(kind, "disabled") || same_text(kind, "none") {
                    Some("disabled")
                } else if same_text(kind, "auto") || same_text(kind, "adaptive") {
                    Some("auto")
                } else {
                    None
                },
                None => None,
            }
        },
    };
    match mode {
        Some(mode) => extra.insert("thinking".to_owned(), text_object("mode", mode)),
        None => extra.remove("thinking"),
    }
}

/// Drops the fields of a request, and the markers of its messages, that the Anthropic API
/// rejects, and puts its `thinking` field into canonical form.
pub fn remove_anthropic_incompatible_openai_fields(request: &mut CompletionRequest)
    ensures
        final(request)@ == accepted_request(old(request)@),
{
    request.extra.remove("stream_options");
    request.extra.remove("temperature");
    request.extra.remove("top_p");
    request.extra.remove("n");
    request.extra.remove("reasoning_effort");
    request.extra.remove("reasoning");
    request.extra.remove("think");
    request.extra.remove("thinking_config");
    assert(request.extra@ =~= old(request).extra@.remove_keys(rejected_fields()));
    normalize_opencode_thinking(&mut request.extra);
    let mut i: usize = 0;
    while i < request.messages.len()
        invariant
            i <= request.messages@.len(),
            request.messages@.len() == old(request).messages@.len(),
            request.model == old(request).model,
            request.stream == old(request).stream,
            request.extra@ == accepted_request(old(request)@).extra,
            forall|j: int|
                0 <= j < i ==> json_view(#[trigger] request.messages@[j]) == unmarked_message(
                    json_view(old(request).messages@[j]),
                ),
            forall|j: int|
                i <= j < request.messages@.len() ==> #[trigger] request.messages@[j]
                    == old(request).messages@[j],
        decreases request.messages@.len() - i,
    {
        match &mut request.messages[i] {
            Json::Object(members) => members.remove("cache_control"),
            _ => {},
        }
        i += 1;
    }
    proof {
        lemma_array_index(request.messages@);
        lemma_array_index(old(request).messages@);
        assert(request@.messages =~= accepted_request(old(request)@).messages);
    }
}

impl CompletionRequest {
    /// The body of the request as one JSON object.
    pub fn into_body(self) -> (body: Json)
        ensures
            body@ == JsonView::Object(request_body(self@)),
    {
        let mut members = JsonObject::new();
        members.insert("model".to_owned(), Json::Text(self.model));
        members.insert("messages".to_owned(), Json::Array(self.messages));
        members.insert("stream".to_owned(), Json::Bool(self.stream));
        let ghost own = members@;
        let ghost all = self.extra.entries@;
        for entry in iter: self.extra.entries
            invariant
                iter.seq() == all,
                members@ == own.union_prefer_right(entries_view(all.take(iter.index() as int))),
        {
            let ghost i = iter.index() as int;
            let (key, value) = entry;
            proof {
                assert(all.take(i + 1).drop_last() =~= all.take(i));
                assert(own.union_prefer_right(entries_view(all.take(i + 1)))
                    =~= own.union_prefer_right(entries_view(all.take(i))).insert(key@, value@));
            }
            members.insert(key, value);
        }
        proof {
            assert(all.take(all.len() as int) =~= all);
            assert(own =~= map![
                "model"@ => JsonView::Text(self.model@),
                "messages"@ => JsonView::Array(array_view(self.messages@)),
                "stream"@ => JsonView::Bool(self.stream),
            ]);
        }
        Json::Object(members)
    }
}

} // verus!
