//! The client program that the API knows: its name, and the texts that are made with it.
use vstd::prelude::*;
use vstd::string::*;
use crate::text::concat_text;

verus! {

/// Whether a text can be the name of a client program: one word in lower case.
pub open spec fn is_program_name(text: Seq<char>) -> bool {
    &&& 0 < text.len() <= 32
    &&& forall|i: int| 0 <= i < text.len() ==> 'a' <= #[trigger] text[i] <= 'z'
}

/// The name under which the API knows the client program.
///
/// It is the one word of the client's user agent, beta flags and headers that this crate does not
/// spell out: the application gives it, once, and everything round it is fixed here.
pub struct ProgramName {
    text: String,
}

impl View for ProgramName {
    type V = Seq<char>;

    closed spec fn view(&self) -> Seq<char> {
        self.text@
    }
}

impl ProgramName {
    #[verifier::type_invariant]
    spec fn inv(self) -> bool {
        is_program_name(self@)
    }

    /// The program with the given name, if that is one word in lower case.
    pub fn new(text: String) -> (program: Option<ProgramName>)
        ensures
            match program {
                Some(program) => is_program_name(text@) && program@ == text@,
                None => !is_program_name(text@),
            },
    {
        let n: usize = text.as_str().unicode_len();
        if n == 0 || n > 32 {
            return None;
        }
        let mut i: usize = 0;
        while i < n
            invariant
                i <= n,
                n == text@.len(),
                forall|j: int| 0 <= j < i ==> 'a' <= #[trigger] text@[j] <= 'z',
            decreases n - i,
        {
            let c: char = text.as_str().get_char(i);
            if !('a' <= c && c <= 'z') {
                assert(text@[i as int] == c);
                return None;
            }
            i += 1;
        }
        Some(ProgramName { text })
    }
}

/// The beta features to enable.
///
/// `prompt-caching-2024-07-31` is not among them: prompt caching is generally available, and the
/// API rejects its old flag.
pub open spec fn beta_flags(program: Seq<char>) -> Seq<Seq<char>> {
    seq![
        program + "-code-20250219"@,
        "oauth-2025-04-20"@,
        "interleaved-thinking-2025-05-14"@,
        "thinking-token-count-2026-05-13"@,
        "context-management-2025-06-27"@,
        "prompt-caching-scope-2026-01-05"@,
        "mid-conversation-system-2026-04-07"@,
        "advisor-tool-2026-03-01"@,
        "effort-2025-11-24"@,
        "fallback-credit-2026-06-01"@,
        "extended-cache-ttl-2025-04-11"@,
    ]
}

/// Texts one after the other, with commas between them.
pub open spec fn joined(parts: Seq<Seq<char>>) -> Seq<char>
    decreases parts.len(),
{
    if parts.len() == 0 {
        Seq::empty()
    } else if parts.len() == 1 {
        parts[0]
    } else {
        joined(parts.drop_last()) + ","@ + parts.last()
    }
}

/// Texts one after the other, with commas between them.
fn join(parts: &Vec<String>) -> (text: String)
    ensures
        text@ == joined(parts@.map_values(|part: String| part@)),
{
    let ghost views = parts@.map_values(|part: String| part@);
    let mut text: String = String::new();
    let mut i: usize = 0;
    while i < parts.len()
        invariant
            i <= parts@.len(),
            views == parts@.map_values(|part: String| part@),
            text@ == joined(views.take(i as int)),
        decreases parts@.len() - i,
    {
        assert(views.take(i + 1).drop_last() =~= views.take(i as int));
        if i > 0 {
            text.append(",");
        }
        text.append(parts[i].as_str());
        assert(text@ =~= joined(views.take(i + 1)));
        i += 1;
    }
    assert(views.take(i as int) =~= views);
    text
}

/// The value of the `anthropic-beta` header.
pub fn anthropic_beta(program: &ProgramName) -> (text: String)
    ensures
        text@ == joined(beta_flags(program@)),
{
    let flags: Vec<String> = vec![
        concat_text(program.text.as_str(), "-code-20250219"),
        "oauth-2025-04-20".to_owned(),
        "interleaved-thinking-2025-05-14".to_owned(),
        "thinking-token-count-2026-05-13".to_owned(),
        "context-management-2025-06-27".to_owned(),
        "prompt-caching-scope-2026-01-05".to_owned(),
        "mid-conversation-system-2026-04-07".to_owned(),
        "advisor-tool-2026-03-01".to_owned(),
        "effort-2025-11-24".to_owned(),
        "fallback-credit-2026-06-01".to_owned(),
        "extended-cache-ttl-2025-04-11".to_owned(),
    ];
    assert(flags@.map_values(|flag: String| flag@) =~= beta_flags(program@));
    join(&flags)
}

/// The user agent of the program in its current version.
pub fn user_agent(program: &ProgramName) -> (text: String)
    ensures
        text@ == program@ + "-cli/2.1.173 (external, sdk-cli)"@,
{
    concat_text(program.text.as_str(), "-cli/2.1.173 (external, sdk-cli)")
}

/// The name of the header in which a session is sent.
pub open spec fn session_header(program: Seq<char>) -> Seq<char> {
    "x-"@ + program + "-code-session-id"@
}

/// The name of the header in which a session is sent.
pub fn session_header_name(program: &ProgramName) -> (name: String)
    ensures
        name@ == session_header(program@),
        is_program_name(program@),
{
    proof {
        use_type_invariant(program);
    }
    concat_text(concat_text("x-", program.text.as_str()).as_str(), "-code-session-id")
}

} // verus!
