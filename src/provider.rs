use vstd::prelude::*;
use vstd::string::{StrSliceExecFns, StringExecFns};

use crate::session::{transcript_view, ChatTurn, Role};
use crate::text::joined;

verus! {

/// How a call to a provider failed.
pub enum ProviderError {
    /// The call ran past its timeout.
    Timeout,
    /// The provider answered with this non-success status.
    Status(u16),
    /// The request could not be sent or its answer not read.
    Transport(String),
    /// The answer's body was not of the expected shape.
    Malformed(String),
}

/// The kinds of call, each with its own timeout.
#[derive(Clone, Copy, Debug, PartialEq, Eq, Structural)]
pub enum TimeoutClass {
    InteractiveChat,
    InteractiveImage,
    ProbeChat,
    ProbeImage,
}

pub open spec fn timeout_of(c: TimeoutClass) -> u64 {
    match c {
        TimeoutClass::InteractiveChat => 120,
        TimeoutClass::InteractiveImage => 180,
        TimeoutClass::ProbeChat => 20,
        TimeoutClass::ProbeImage => 45,
    }
}

/// The timeout of a kind of call, in seconds.
pub fn timeout_secs(c: TimeoutClass) -> (r: u64)
    ensures
        r == timeout_of(c),
{
    match c {
        TimeoutClass::InteractiveChat => 120,
        TimeoutClass::InteractiveImage => 180,
        TimeoutClass::ProbeChat => 20,
        TimeoutClass::ProbeImage => 45,
    }
}

/// A text without the `/` characters that end it.
pub open spec fn without_trailing_slashes(s: Seq<char>) -> Seq<char>
    decreases s.len(),
{
    if s.len() > 0 && s.last() == '/' {
        without_trailing_slashes(s.drop_last())
    } else {
        s
    }
}

/// The address of an operation of the provider: the base address, its trailing slashes dropped, then the path.
pub fn endpoint(base_url: &str, path: &str) -> (r: String)
    ensures
        r@ == without_trailing_slashes(base_url@) + path@,
{
    let mut end = base_url.unicode_len();
    assert(base_url@.subrange(0, end as int) =~= base_url@);
    while end > 0 && base_url.get_char(end - 1) == '/'
        invariant
            end <= base_url@.len(),
            without_trailing_slashes(base_url@) == without_trailing_slashes(base_url@.subrange(0, end as int)),
        decreases end,
    {
        assert(base_url@.subrange(0, end as int).drop_last() =~= base_url@.subrange(0, end - 1));
        end -= 1;
    }
    let base = base_url.substring_char(0, end);
    joined(base, path)
}

pub open spec fn role_name(r: Role) -> Seq<char> {
    match r {
        Role::User => "user"@,
        Role::Assistant => "assistant"@,
    }
}

pub open spec fn instruction_message(i: Seq<char>) -> Seq<char> {
    "Дополнительная инструкция от пользователя: "@ + i
}

/// The messages a chat request carries: the global system prompt, the user's own instruction where set, then
/// the transcript, each as (role, content).
pub open spec fn request_messages(
    system_prompt: Seq<char>,
    instruction: Option<Seq<char>>,
    history: Seq<(Role, Seq<char>)>,
) -> Seq<(Seq<char>, Seq<char>)> {
    let head = seq![("system"@, system_prompt)];
    let head = match instruction {
        Some(i) => head.push(("system"@, instruction_message(i))),
        None => head,
    };
    head + history.map_values(|t: (Role, Seq<char>)| (role_name(t.0), t.1))
}

pub open spec fn pairs_view(v: Seq<(String, String)>) -> Seq<(Seq<char>, Seq<char>)> {
    v.map_values(|p: (String, String)| (p.0@, p.1@))
}

fn role_text(r: Role) -> (s: String)
    ensures
        s@ == role_name(r),
{
    match r {
        Role::User => String::from_str("user"),
        Role::Assistant => String::from_str("assistant"),
    }
}

/// Builds the messages of a chat request.
pub fn chat_messages(system_prompt: &str, instruction: Option<&String>, history: &Vec<ChatTurn>) -> (r: Vec<(String, String)>)
    ensures
        pairs_view(r@) == request_messages(
            system_prompt@,
            match instruction { Some(i) => Some(i@), None => None },
            transcript_view(history@),
        ),
{
    let mut out: Vec<(String, String)> = Vec::new();
    out.push((String::from_str("system"), String::from_str(system_prompt)));
    if let Some(i) = instruction {
        out.push((String::from_str("system"), joined("Дополнительная инструкция от пользователя: ", i.as_str())));
    }
    let ghost head = pairs_view(out@);
    let ghost hv = transcript_view(history@).map_values(|t: (Role, Seq<char>)| (role_name(t.0), t.1));
    let mut k: usize = 0;
    while k < history.len()
        invariant
            k <= history@.len(),
            hv == transcript_view(history@).map_values(|t: (Role, Seq<char>)| (role_name(t.0), t.1)),
            pairs_view(out@) =~= head + hv.take(k as int),
        decreases history@.len() - k,
    {
        let t = &history[k];
        let ghost before = out@;
        let pair = (role_text(t.role), t.content.clone());
        out.push(pair);
        assert(pairs_view(out@) =~= pairs_view(before).push((role_name(t.role), t.content@)));
        assert(hv[k as int] == (role_name(t.role), t.content@));
        assert(hv.take(k + 1) =~= hv.take(k as int).push(hv[k as int]));
        k += 1;
    }
    assert(hv.take(history@.len() as int) =~= hv);
    out
}

/// The temperature a request is made with: the user's own where set, else the default.
pub fn effective_temperature(user_temperature: Option<u32>, default_temperature: u32) -> (r: u32)
    ensures
        r == match user_temperature {
            Some(t) => t,
            None => default_temperature,
        },
{
    match user_temperature {
        Some(t) => t,
        None => default_temperature,
    }
}

/// The text of a chat answer, given the contents of its choices in order: that of the first choice, and an
/// empty text where there is no choice or the first has no content.
pub fn answer_text(contents: Vec<Option<String>>) -> (r: String)
    ensures
        r@ == if contents@.len() > 0 && contents@[0] is Some {
            contents@[0]->Some_0@
        } else {
            Seq::<char>::empty()
        },
{
    let mut contents = contents;
    if contents.len() == 0 {
        return String::new();
    }
    let first = contents.swap_remove(0);
    match first {
        Some(t) => t,
        None => String::new(),
    }
}

} // verus!
