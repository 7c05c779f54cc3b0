use vstd::prelude::*;

verus! {

/// Whether `serde_json` reads the text as one JSON document.
pub uninterp spec fn is_json_document(text: Seq<char>) -> bool;

/// Whether the JSON document in the text is an object.
pub uninterp spec fn json_is_object(text: Seq<char>) -> bool;

/// The member `key` of the JSON object in the text: `None` where the object has no such member,
/// `Some(None)` where the member is not a string, `Some(Some(s))` where it is the string `s`.
pub uninterp spec fn json_member_of(text: Seq<char>, key: Seq<char>) -> Option<Option<Seq<char>>>;

/// A member of a JSON object as the command reader sees it.
#[derive(Debug)]
pub enum Member {
    Missing,
    NotText,
    Text(String),
}

/// A member as plain values: absent, not a string, or the string's characters.
pub open spec fn member_view(m: Member) -> Option<Option<Seq<char>>> {
    match m {
        Member::Missing => None,
        Member::NotText => Some(None),
        Member::Text(s) => Some(Some(s@)),
    }
}

/// Relies on `serde_json::from_str` into a `Value`, `Value::as_object`, `Map::get` and the
/// `Value::String` variant: whether the text is a JSON document, whether that is an object, and
/// the object's members `first` and `second`.
#[verifier::external_body]
fn read_members(text: &str, first: &str, second: &str) -> (r: Option<Option<(Member, Member)>>)
    ensures
        r is Some <==> is_json_document(text@),
        r matches Some(o) ==> (o is Some <==> json_is_object(text@)),
        r matches Some(Some(ms)) ==> member_view(ms.0) == json_member_of(text@, first@)
            && member_view(ms.1) == json_member_of(text@, second@),
{
    let member = |m: Option<&serde_json::Value>| match m {
        None => Member::Missing,
        Some(serde_json::Value::String(s)) => Member::Text(s.clone()),
        Some(_) => Member::NotText,
    };
    let v: serde_json::Value = serde_json::from_str(text).ok()?;
    Some(v.as_object().map(|o| (member(o.get(first)), member(o.get(second)))))
}

/// A command that a streaming client sends.
#[derive(Debug)]
pub enum ClientCommand {
    /// `{"cmd": "sub", "topic": <topic>}`: forward the topic's values to the client.
    Subscribe { topic: String },
}

/// Why a client frame is not a command. Such a frame is logged and the connection stays open.
#[derive(Debug)]
pub enum FrameError {
    NotJson,
    NotObject,
    MissingCommand,
    CommandNotText,
    MissingTopic,
    TopicNotText,
    UnknownCommand(String),
}

/// Whether `r` is what the members `cmd` and `topic` of an object make: the command is checked
/// before the topic, and "sub" is the one command known.
pub open spec fn command_of(
    r: Result<ClientCommand, FrameError>,
    cmd: Option<Option<Seq<char>>>,
    topic: Option<Option<Seq<char>>>,
) -> bool {
    match cmd {
        None => r is Err && r->Err_0 is MissingCommand,
        Some(None) => r is Err && r->Err_0 is CommandNotText,
        Some(Some(c)) => match topic {
            None => r is Err && r->Err_0 is MissingTopic,
            Some(None) => r is Err && r->Err_0 is TopicNotText,
            Some(Some(t)) => if c == "sub"@ {
                r matches Ok(ClientCommand::Subscribe { topic }) && topic@ == t
            } else {
                r matches Err(FrameError::UnknownCommand(name)) && name@ == c
            },
        },
    }
}

/// Whether `r` is what a client's text frame makes: not JSON, not an object, or the command of
/// the object's members `cmd` and `topic`.
pub open spec fn frame_of(r: Result<ClientCommand, FrameError>, text: Seq<char>) -> bool {
    if !is_json_document(text) {
        r is Err && r->Err_0 is NotJson
    } else if !json_is_object(text) {
        r is Err && r->Err_0 is NotObject
    } else {
        command_of(r, json_member_of(text, "cmd"@), json_member_of(text, "topic"@))
    }
}

/// Whether two texts are equal, character by character.
fn same_text(a: &str, b: &str) -> (r: bool)
    ensures
        r == (a@ == b@),
{
    let n = a.unicode_len();
    if n != b.unicode_len() {
        return false;
    }
    let mut i: usize = 0;
    while i < n
        invariant
            n == a@.len(),
            n == b@.len(),
            0 <= i <= n,
            forall|j: int| 0 <= j < i ==> a@[j] == b@[j],
        decreases n - i,
    {
        if a.get_char(i) != b.get_char(i) {
            return false;
        }
        i = i + 1;
    }
    assert(a@ =~= b@);
    true
}

/// Reads a command from the members `cmd` and `topic` of a client's JSON object.
pub fn command_from_members(cmd: Member, topic: Member) -> (r: Result<ClientCommand, FrameError>)
    ensures
        command_of(r, member_view(cmd), member_view(topic)),
{
    match cmd {
        Member::Missing => Err(FrameError::MissingCommand),
        Member::NotText => Err(FrameError::CommandNotText),
        Member::Text(c) => match topic {
            Member::Missing => Err(FrameError::MissingTopic),
            Member::NotText => Err(FrameError::TopicNotText),
            Member::Text(t) => {
                if same_text(c.as_str(), "sub") {
                    Ok(ClientCommand::Subscribe { topic: t })
                } else {
                    Err(FrameError::UnknownCommand(c))
                }
            },
        },
    }
}

/// Reads a client's text frame: it must be a JSON object whose members `cmd` and `topic` make
/// a command, as `frame_of` says.
pub fn parse_frame(text: &str) -> (r: Result<ClientCommand, FrameError>)
    ensures
        frame_of(r, text@),
{
    match read_members(text, "cmd", "topic") {
        None => Err(FrameError::NotJson),
        Some(None) => Err(FrameError::NotObject),
        Some(Some((cmd, topic))) => command_from_members(cmd, topic),
    }
}

} // verus!
