//! The message of the day: colour codes and chat components.

use vstd::prelude::*;
use vstd::string::StringExecFns;

verus! {

/// The section sign, which starts a colour code.
pub const SECTION_SIGN: char = '\u{a7}';

/// `text` without its colour codes: without every section sign and the
/// character that follows it.
pub open spec fn strip_spec(text: Seq<char>) -> Seq<char>
    decreases text.len(),
{
    if text.len() == 0 {
        Seq::empty()
    } else if text[0] == SECTION_SIGN {
        if text.len() == 1 {
            Seq::empty()
        } else {
            strip_spec(text.subrange(2, text.len() as int))
        }
    } else {
        seq![text[0]] + strip_spec(text.drop_first())
    }
}

/// What is left to come out of `rest`, where `skip` says that its first
/// character belongs to a colour code.
spec fn strip_rest(rest: Seq<char>, skip: bool) -> Seq<char> {
    if !skip {
        strip_spec(rest)
    } else if rest.len() == 0 {
        Seq::empty()
    } else {
        strip_spec(rest.drop_first())
    }
}

/// Removes the colour codes from `s`.
pub fn strip_color_codes(s: &str) -> (out: String)
    ensures
        out@ == strip_spec(s@),
{
    let mut out = String::new();
    let mut skip = false;
    assert(s@.subrange(0, s@.len() as int) =~= s@);
    assert(out@ + strip_spec(s@) =~= strip_spec(s@));
    for c in it: s.chars()
        invariant
            it.seq() == s@,
            strip_spec(s@) == out@ + strip_rest(s@.subrange(it.index() as int, s@.len() as int), skip),
    {
        proof {
            let rest = s@.subrange(it.index() as int, s@.len() as int);
            let next = s@.subrange(it.index() + 1, s@.len() as int);
            assert(rest[0] == c);
            assert(rest.drop_first() =~= next);
            if next.len() > 0 {
                assert(next.drop_first() =~= rest.subrange(2, rest.len() as int));
            }
        }
        if skip {
            skip = false;
        } else if c == SECTION_SIGN {
            skip = true;
        } else {
            let ghost before = out@;
            out.push(c);
            proof {
                let rest = s@.subrange(it.index() as int, s@.len() as int);
                assert(before.push(c) + strip_spec(rest.drop_first()) =~= before + (seq![c]
                    + strip_spec(rest.drop_first())));
            }
        }
    }
    out
}

proof fn lemma_strip_has_no_sigil(text: Seq<char>)
    ensures
        forall|i: int| 0 <= i < strip_spec(text).len() ==> strip_spec(text)[i] != SECTION_SIGN,
    decreases text.len(),
{
    let out = strip_spec(text);
    if text.len() == 0 {
        assert(out.len() == 0);
    } else if text[0] == SECTION_SIGN {
        if text.len() > 1 {
            lemma_strip_has_no_sigil(text.subrange(2, text.len() as int));
            assert(out == strip_spec(text.subrange(2, text.len() as int)));
        } else {
            assert(out.len() == 0);
        }
    } else {
        let tail = strip_spec(text.drop_first());
        lemma_strip_has_no_sigil(text.drop_first());
        assert(out == seq![text[0]] + tail);
        assert forall|i: int| 0 <= i < out.len() implies out[i] != SECTION_SIGN by {
            if i > 0 {
                assert(out[i] == tail[i - 1]);
            }
        }
    }
}

proof fn lemma_strip_plain(text: Seq<char>)
    requires
        forall|i: int| 0 <= i < text.len() ==> text[i] != SECTION_SIGN,
    ensures
        strip_spec(text) == text,
    decreases text.len(),
{
    if text.len() > 0 {
        let tail = text.drop_first();
        assert forall|i: int| 0 <= i < tail.len() implies tail[i] != SECTION_SIGN by {
            assert(tail[i] == text[i + 1]);
        }
        lemma_strip_plain(tail);
        assert(seq![text[0]] + tail =~= text);
    }
}

/// Stripping twice is stripping once: nothing that comes out of it holds a
/// section sign.
pub proof fn lemma_strip_idempotent(text: Seq<char>)
    ensures
        strip_spec(strip_spec(text)) == strip_spec(text),
{
    lemma_strip_has_no_sigil(text);
    lemma_strip_plain(strip_spec(text));
}

/// A chat component as a server sends it: a JSON value, of which the fields
/// `text` and `extra` of an object are kept.
#[derive(Debug, PartialEq, Eq)]
pub enum ChatComponent {
    /// A JSON string.
    Text(String),
    /// A JSON object, with the values of its fields `text` and `extra` where it has them.
    Object { text: Option<Box<ChatComponent>>, extra: Option<Box<ChatComponent>> },
    /// A JSON array.
    Array(Vec<ChatComponent>),
    /// Any other JSON value.
    Other,
}

/// The plain text of a chat component: of a string, the string without its
/// colour codes; of an object, its `text` and then the parts of its `extra`;
/// of an array, its parts one after another; of anything else, nothing.
pub open spec fn motd_spec(node: ChatComponent) -> Seq<char>
    decreases node, 0nat,
{
    match node {
        ChatComponent::Text(s) => strip_spec(s@),
        ChatComponent::Object { text, extra } => {
            let own = match text {
                Some(t) => match *t {
                    ChatComponent::Text(s) => strip_spec(s@),
                    _ => Seq::empty(),
                },
                None => Seq::empty(),
            };
            let rest = match extra {
                Some(e) => match *e {
                    ChatComponent::Array(parts) => parts_spec(parts, parts.len() as nat),
                    _ => Seq::empty(),
                },
                None => Seq::empty(),
            };
            own + rest
        },
        ChatComponent::Array(parts) => parts_spec(parts, parts.len() as nat),
        ChatComponent::Other => Seq::empty(),
    }
}

/// The plain text of the first `n` of `parts`, one after another.
pub open spec fn parts_spec(parts: Vec<ChatComponent>, n: nat) -> Seq<char>
    decreases parts, n,
{
    if n == 0 || n > parts.len() {
        Seq::empty()
    } else {
        parts_spec(parts, (n - 1) as nat) + motd_spec(parts[n - 1])
    }
}

/// The plain text of what stands in the field `extra` of an object: of an
/// array, its parts one after another; of anything else, nothing.
pub open spec fn extra_spec(extra: ChatComponent) -> Seq<char> {
    match extra {
        ChatComponent::Array(parts) => parts_spec(parts, parts.len() as nat),
        _ => Seq::empty(),
    }
}

fn join_parts(parts: &Vec<ChatComponent>) -> (out: String)
    ensures
        out@ == parts_spec(*parts, parts.len() as nat),
    decreases parts, 0nat,
{
    let mut out = String::new();
    let mut i: usize = 0;
    while i < parts.len()
        invariant
            i <= parts.len(),
            out@ == parts_spec(*parts, i as nat),
        decreases parts.len() - i,
    {
        let part = parse_motd(&parts[i]);
        out.append(part.as_str());
        i = i + 1;
    }
    out
}

/// Flattens a chat component into the plain text of a message of the day.
pub fn parse_motd(description: &ChatComponent) -> (motd: String)
    ensures
        motd@ == motd_spec(*description),
    decreases description, 1nat,
{
    match description {
        ChatComponent::Text(s) => strip_color_codes(s.as_str()),
        ChatComponent::Object { text, extra } => {
            let mut motd = String::new();
            if let Some(t) = text {
                if let ChatComponent::Text(s) = &**t {
                    let own = strip_color_codes(s.as_str());
                    motd.append(own.as_str());
                }
            }
            if let Some(e) = extra {
                let rest = parse_extra(&**e);
                motd.append(rest.as_str());
            }
            motd
        },
        ChatComponent::Array(parts) => join_parts(parts),
        ChatComponent::Other => String::new(),
    }
}

/// Flattens what stands in the field `extra` of an object.
pub fn parse_extra(extra: &ChatComponent) -> (text: String)
    ensures
        text@ == extra_spec(*extra),
    decreases extra, 1nat,
{
    match extra {
        ChatComponent::Array(parts) => join_parts(parts),
        _ => String::new(),
    }
}

/// The message of the day of a plain string is the string without its colour codes.
pub proof fn lemma_motd_of_plain_string(s: String)
    ensures
        motd_spec(ChatComponent::Text(s)) == strip_spec(s@),
{
}

} // verus!
