//! The wire format of messages: one JSON object per message. Encoding
//! writes the discriminant `"tag"` first, then the variant's fields in
//! declaration order, without whitespace; decoding reads any JSON layout of
//! such an object.
use vstd::prelude::*;

use crate::json::{
    document, document_at, lemma_parse_quoted, lemma_value_list, lemma_value_quoted, member,
    members, members_view, parse_quoted, value, ws_len, JsonValue, Shape,
};
use crate::message::{strings_view, MessageModel, MessageType};
use crate::text::{chars_of, push_char, same_text};

verus! {

/// The lowercase hexadecimal digit of `d`, for `d < 16`.
pub open spec fn hex_digit(d: u32) -> char {
    if d < 10 {
        (d + 48) as char
    } else {
        (d + 87) as char
    }
}

/// How one character is written inside a JSON string literal: quote,
/// backslash and the control characters are escaped, the rest stands as is.
pub open spec fn escape_char(c: char) -> Seq<char> {
    if c == '"' {
        seq!['\\', '"']
    } else if c == '\\' {
        seq!['\\', '\\']
    } else if c == '\u{8}' {
        seq!['\\', 'b']
    } else if c == '\t' {
        seq!['\\', 't']
    } else if c == '\n' {
        seq!['\\', 'n']
    } else if c == '\u{c}' {
        seq!['\\', 'f']
    } else if c == '\r' {
        seq!['\\', 'r']
    } else if (c as u32) < 32 {
        seq!['\\', 'u', '0', '0', hex_digit((c as u32) / 16), hex_digit((c as u32) % 16)]
    } else {
        seq![c]
    }
}

/// The body of a JSON string literal for `s`.
pub open spec fn escape(s: Seq<char>) -> Seq<char>
    decreases s.len(),
{
    if s.len() == 0 {
        seq![]
    } else {
        escape_char(s[0]) + escape(s.skip(1))
    }
}

/// The JSON string literal for `s`.
pub open spec fn quoted(s: Seq<char>) -> Seq<char> {
    seq!['"'] + escape(s) + seq!['"']
}

/// The rest of a JSON list of strings after its first item.
pub open spec fn list_rest(xs: Seq<Seq<char>>) -> Seq<char>
    decreases xs.len(),
{
    if xs.len() == 0 {
        seq![']']
    } else {
        seq![','] + quoted(xs[0]) + list_rest(xs.skip(1))
    }
}

/// The JSON list of the strings `xs`, in order.
pub open spec fn quoted_list(xs: Seq<Seq<char>>) -> Seq<char> {
    if xs.len() == 0 {
        seq!['[', ']']
    } else {
        seq!['['] + quoted(xs[0]) + list_rest(xs.skip(1))
    }
}

/// Why a payload could not be read as a message.
#[derive(Clone, Copy, Debug, PartialEq, Eq, Structural)]
pub enum DecodeError {
    /// The payload is not one JSON object, or its `"tag"` member is absent,
    /// not a string, or names no variant.
    MalformedPayload,
    /// The tag names a variant, but the tag is repeated, or a field of the
    /// variant is absent, repeated, or not of its shape (a string, or a list
    /// of strings).
    SchemaMismatch,
}

/// How a member's value is written.
pub open spec fn shape_text(v: Shape) -> Seq<char> {
    match v {
        Shape::Str(s) => quoted(s),
        Shape::StrList(xs) => quoted_list(xs),
        Shape::Other => seq![],
    }
}

pub open spec fn member_text(k: Seq<char>, v: Shape) -> Seq<char> {
    quoted(k) + seq![':'] + shape_text(v)
}

/// The rest of an object after its first member.
pub open spec fn members_rest(ms: Seq<(Seq<char>, Shape)>) -> Seq<char>
    decreases ms.len(),
{
    if ms.len() == 0 {
        seq!['}']
    } else {
        seq![','] + member_text(ms[0].0, ms[0].1) + members_rest(ms.skip(1))
    }
}

/// An object with the members `ms`, in order, written without whitespace.
pub open spec fn object_text(ms: Seq<(Seq<char>, Shape)>) -> Seq<char> {
    if ms.len() == 0 {
        seq!['{', '}']
    } else {
        seq!['{'] + member_text(ms[0].0, ms[0].1) + members_rest(ms.skip(1))
    }
}

/// The members of a message on the wire: the discriminant first, then the
/// variant's fields in declaration order.
pub open spec fn fields(m: MessageModel) -> Seq<(Seq<char>, Shape)> {
    match m {
        MessageModel::Hello { name, channel } => seq![
            ("tag"@, Shape::Str("Hello"@)),
            ("name"@, Shape::Str(name)),
            ("channel"@, Shape::Str(channel)),
        ],
        MessageModel::Message { name, channel, content } => seq![
            ("tag"@, Shape::Str("Message"@)),
            ("name"@, Shape::Str(name)),
            ("channel"@, Shape::Str(channel)),
            ("content"@, Shape::Str(content)),
        ],
        MessageModel::ResponseMembers { members } => seq![
            ("tag"@, Shape::Str("ResponseMembers"@)),
            ("members"@, Shape::StrList(members)),
        ],
        MessageModel::ResponseChannels { channels } => seq![
            ("tag"@, Shape::Str("ResponseChannels"@)),
            ("channels"@, Shape::StrList(channels)),
        ],
        MessageModel::Goodbye { name, channel } => seq![
            ("tag"@, Shape::Str("Goodbye"@)),
            ("name"@, Shape::Str(name)),
            ("channel"@, Shape::Str(channel)),
        ],
    }
}

/// The wire text of a message.
pub open spec fn encoding(m: MessageModel) -> Seq<char> {
    object_text(fields(m))
}

/// The value of the first member named `key`.
pub open spec fn find(ms: Seq<(Seq<char>, Shape)>, key: Seq<char>) -> Option<Shape>
    decreases ms.len(),
{
    if ms.len() == 0 {
        None
    } else if ms[0].0 == key {
        Some(ms[0].1)
    } else {
        find(ms.skip(1), key)
    }
}

/// How many members are named `key`.
pub open spec fn occurrences(ms: Seq<(Seq<char>, Shape)>, key: Seq<char>) -> nat
    decreases ms.len(),
{
    if ms.len() == 0 {
        0
    } else {
        (if ms[0].0 == key {
            1nat
        } else {
            0nat
        }) + occurrences(ms.skip(1), key)
    }
}

/// The string of the one member named `key`.
pub open spec fn str_field(ms: Seq<(Seq<char>, Shape)>, key: Seq<char>) -> Option<Seq<char>> {
    if occurrences(ms, key) == 1 {
        match find(ms, key) {
            Some(Shape::Str(s)) => Some(s),
            _ => None,
        }
    } else {
        None
    }
}

/// The list of strings of the one member named `key`.
pub open spec fn list_field(ms: Seq<(Seq<char>, Shape)>, key: Seq<char>) -> Option<
    Seq<Seq<char>>,
> {
    if occurrences(ms, key) == 1 {
        match find(ms, key) {
            Some(Shape::StrList(xs)) => Some(xs),
            _ => None,
        }
    } else {
        None
    }
}

pub open spec fn is_variant(s: Seq<char>) -> bool {
    s == "Hello"@ || s == "Message"@ || s == "ResponseMembers"@ || s == "ResponseChannels"@ || s
        == "Goodbye"@
}

/// The variant that the first `"tag"` member names, if it names one.
pub open spec fn tag_of(ms: Seq<(Seq<char>, Shape)>) -> Option<Seq<char>> {
    match find(ms, "tag"@) {
        Some(Shape::Str(s)) => if is_variant(s) {
            Some(s)
        } else {
            None
        },
        _ => None,
    }
}

/// The message of variant `tag` that the members spell, if they spell one.
pub open spec fn message_of(ms: Seq<(Seq<char>, Shape)>, tag: Seq<char>) -> Option<MessageModel> {
    if occurrences(ms, "tag"@) != 1 {
        None
    } else if tag == "Hello"@ {
        match (str_field(ms, "name"@), str_field(ms, "channel"@)) {
            (Some(name), Some(channel)) => Some(MessageModel::Hello { name, channel }),
            _ => None,
        }
    } else if tag == "Message"@ {
        match (str_field(ms, "name"@), str_field(ms, "channel"@), str_field(ms, "content"@)) {
            (Some(name), Some(channel), Some(content)) => Some(
                MessageModel::Message { name, channel, content },
            ),
            _ => None,
        }
    } else if tag == "ResponseMembers"@ {
        match list_field(ms, "members"@) {
            Some(members) => Some(MessageModel::ResponseMembers { members }),
            None => None,
        }
    } else if tag == "ResponseChannels"@ {
        match list_field(ms, "channels"@) {
            Some(channels) => Some(MessageModel::ResponseChannels { channels }),
            None => None,
        }
    } else {
        match (str_field(ms, "name"@), str_field(ms, "channel"@)) {
            (Some(name), Some(channel)) => Some(MessageModel::Goodbye { name, channel }),
            _ => None,
        }
    }
}

/// What a payload decodes to. It is read as one JSON object, with
/// whitespace between tokens, members in any order, and members that the
/// variant does not have ignored. Without such an object, or without a
/// `"tag"` that names a variant, the payload is malformed; with one, the
/// variant's fields are read, and a missing, repeated or misshapen field is
/// a schema mismatch.
pub open spec fn decoding(s: Seq<char>) -> Result<MessageModel, DecodeError> {
    match document(s) {
        None => Err(DecodeError::MalformedPayload),
        Some(ms) => match tag_of(ms) {
            None => Err(DecodeError::MalformedPayload),
            Some(tag) => match message_of(ms, tag) {
                Some(m) => Ok(m),
                None => Err(DecodeError::SchemaMismatch),
            },
        },
    }
}

fn hex_char(d: u32) -> (c: char)
    requires
        d < 16,
    ensures
        c == hex_digit(d),
{
    let c = if d < 10 {
        ((d + 48) as u8) as char
    } else {
        ((d + 87) as u8) as char
    };
    proof {
        vstd::utf8::char_u32_cast(c, c as u32);
    }
    c
}

fn push_escaped_char(out: &mut String, c: char)
    ensures
        final(out)@ == old(out)@ + escape_char(c),
{
    let v = c as u32;
    if c == '"' {
        proof {
            reveal_strlit("\\\"");
        }
        out.append("\\\"");
    } else if c == '\\' {
        proof {
            reveal_strlit("\\\\");
        }
        out.append("\\\\");
    } else if v == 8 {
        proof {
            reveal_strlit("\\b");
        }
        out.append("\\b");
    } else if v == 9 {
        proof {
            reveal_strlit("\\t");
        }
        out.append("\\t");
    } else if v == 10 {
        proof {
            reveal_strlit("\\n");
        }
        out.append("\\n");
    } else if v == 12 {
        proof {
            reveal_strlit("\\f");
        }
        out.append("\\f");
    } else if v == 13 {
        proof {
            reveal_strlit("\\r");
        }
        out.append("\\r");
    } else if v < 32 {
        proof {
            reveal_strlit("\\u00");
        }
        out.append("\\u00");
        let hi = hex_char(v / 16);
        let lo = hex_char(v % 16);
        push_char(out, hi);
        push_char(out, lo);
    } else {
        push_char(out, c);
    }
    proof {
        assert(final(out)@ =~= old(out)@ + escape_char(c));
    }
}

fn push_quoted(out: &mut String, s: &str)
    ensures
        final(out)@ == old(out)@ + quoted(s@),
{
    let t = chars_of(s);
    proof {
        reveal_strlit("\"");
    }
    out.append("\"");
    let ghost start = out@;
    let mut k: usize = 0;
    assert(t@.skip(0) =~= t@);
    while k < t.len()
        invariant
            k <= t@.len(),
            out@ + escape(t@.skip(k as int)) == start + escape(t@),
        decreases t@.len() - k,
    {
        let ghost before = out@;
        push_escaped_char(out, t[k]);
        proof {
            assert(t@.skip(k as int).skip(1) =~= t@.skip(k + 1));
            assert(out@ + escape(t@.skip(k + 1)) =~= before + escape(t@.skip(k as int)));
        }
        k = k + 1;
    }
    proof {
        assert(t@.skip(k as int) =~= seq![]);
        assert(out@ =~= start + escape(t@));
    }
    out.append("\"");
    proof {
        assert(final(out)@ =~= old(out)@ + quoted(s@));
    }
}

fn push_quoted_list(out: &mut String, xs: &Vec<String>)
    ensures
        final(out)@ == old(out)@ + quoted_list(strings_view(xs@)),
{
    let ghost v = strings_view(xs@);
    proof {
        reveal_strlit("[");
        reveal_strlit("]");
        reveal_strlit(",");
        reveal_strlit("[]");
    }
    if xs.len() == 0 {
        out.append("[]");
        proof {
            assert(final(out)@ =~= old(out)@ + quoted_list(v));
        }
        return;
    }
    out.append("[");
    push_quoted(out, xs[0].as_str());
    let mut k: usize = 1;
    while k < xs.len()
        invariant
            1 <= k <= xs@.len(),
            v == strings_view(xs@),
            out@ + list_rest(v.skip(k as int)) == old(out)@ + quoted_list(v),
        decreases xs@.len() - k,
    {
        let ghost before = out@;
        out.append(",");
        push_quoted(out, xs[k].as_str());
        proof {
            assert(v.skip(k as int).skip(1) =~= v.skip(k + 1));
            assert(v[k as int] == xs@[k as int]@);
            assert(v.skip(k as int)[0] == xs@[k as int]@);
            assert(list_rest(v.skip(k as int)) == seq![','] + quoted(xs@[k as int]@) + list_rest(
                v.skip(k + 1),
            ));
            reveal_strlit(",");
            assert(out@ =~= before + seq![','] + quoted(xs@[k as int]@));
            assert(out@ + list_rest(v.skip(k + 1)) =~= before + list_rest(v.skip(k as int)));
        }
        k = k + 1;
    }
    out.append("]");
    proof {
        assert(v.skip(k as int) =~= seq![]);
        assert(final(out)@ =~= old(out)@ + quoted_list(v));
    }
}

proof fn lemma_object_text(ms: Seq<(Seq<char>, Shape)>)
    requires
        2 <= ms.len() <= 4,
    ensures
        object_text(ms) == seq!['{'] + member_text(ms[0].0, ms[0].1) + seq![','] + member_text(
            ms[1].0,
            ms[1].1,
        ) + (if ms.len() > 2 {
            seq![','] + member_text(ms[2].0, ms[2].1)
        } else {
            seq![]
        }) + (if ms.len() > 3 {
            seq![','] + member_text(ms[3].0, ms[3].1)
        } else {
            seq![]
        }) + seq!['}'],
{
    reveal_with_fuel(members_rest, 4);
    let r1 = ms.skip(1);
    assert(r1[0] == ms[1]);
    if ms.len() > 2 {
        assert(r1.skip(1)[0] == ms[2]);
        if ms.len() > 3 {
            assert(r1.skip(1).skip(1)[0] == ms[3]);
            assert(r1.skip(1).skip(1).skip(1).len() == 0);
        } else {
            assert(r1.skip(1).skip(1).len() == 0);
        }
    } else {
        assert(r1.skip(1).len() == 0);
    }
    assert(object_text(ms) =~= seq!['{'] + member_text(ms[0].0, ms[0].1) + seq![','] + member_text(
        ms[1].0,
        ms[1].1,
    ) + (if ms.len() > 2 {
        seq![','] + member_text(ms[2].0, ms[2].1)
    } else {
        seq![]
    }) + (if ms.len() > 3 {
        seq![','] + member_text(ms[3].0, ms[3].1)
    } else {
        seq![]
    }) + seq!['}']);
}

/// Opens an object with its discriminant member.
fn open_with_tag(tag: &str) -> (out: String)
    ensures
        out@ == seq!['{'] + member_text("tag"@, Shape::Str(tag@)),
{
    let mut out = String::from_str("{");
    proof {
        reveal_strlit("{");
        reveal_strlit(":");
    }
    push_quoted(&mut out, "tag");
    out.append(":");
    push_quoted(&mut out, tag);
    assert(out@ =~= seq!['{'] + member_text("tag"@, Shape::Str(tag@)));
    out
}

/// Appends a member whose value is a string.
fn push_str_member(out: &mut String, key: &str, v: &str)
    ensures
        final(out)@ == old(out)@ + seq![','] + member_text(key@, Shape::Str(v@)),
{
    proof {
        reveal_strlit(",");
        reveal_strlit(":");
    }
    out.append(",");
    push_quoted(out, key);
    out.append(":");
    push_quoted(out, v);
    assert(final(out)@ =~= old(out)@ + seq![','] + member_text(key@, Shape::Str(v@)));
}

/// Appends a member whose value is a list of strings.
fn push_list_member(out: &mut String, key: &str, xs: &Vec<String>)
    ensures
        final(out)@ == old(out)@ + seq![','] + member_text(key@, Shape::StrList(strings_view(xs@))),
{
    proof {
        reveal_strlit(",");
        reveal_strlit(":");
    }
    out.append(",");
    push_quoted(out, key);
    out.append(":");
    push_quoted_list(out, xs);
    assert(final(out)@ =~= old(out)@ + seq![','] + member_text(
        key@,
        Shape::StrList(strings_view(xs@)),
    ));
}

/// Closes an object.
fn close(out: &mut String)
    ensures
        final(out)@ == old(out)@ + seq!['}'],
{
    proof {
        reveal_strlit("}");
    }
    out.append("}");
}

/// An object of a discriminant and two string fields, `name` and `channel`.
fn encode_named(tag: &str, name: &str, channel: &str) -> (r: String)
    ensures
        r@ == object_text(
            seq![
                ("tag"@, Shape::Str(tag@)),
                ("name"@, Shape::Str(name@)),
                ("channel"@, Shape::Str(channel@)),
            ],
        ),
{
    let mut out = open_with_tag(tag);
    push_str_member(&mut out, "name", name);
    push_str_member(&mut out, "channel", channel);
    close(&mut out);
    proof {
        lemma_object_text(
            seq![
                ("tag"@, Shape::Str(tag@)),
                ("name"@, Shape::Str(name@)),
                ("channel"@, Shape::Str(channel@)),
            ],
        );
    }
    assert(out@ =~= object_text(
        seq![
            ("tag"@, Shape::Str(tag@)),
            ("name"@, Shape::Str(name@)),
            ("channel"@, Shape::Str(channel@)),
        ],
    ));
    out
}

/// An object of the `Message` discriminant and its three string fields.
fn encode_chat(name: &str, channel: &str, content: &str) -> (r: String)
    ensures
        r@ == object_text(
            seq![
                ("tag"@, Shape::Str("Message"@)),
                ("name"@, Shape::Str(name@)),
                ("channel"@, Shape::Str(channel@)),
                ("content"@, Shape::Str(content@)),
            ],
        ),
{
    let mut out = open_with_tag("Message");
    push_str_member(&mut out, "name", name);
    push_str_member(&mut out, "channel", channel);
    push_str_member(&mut out, "content", content);
    close(&mut out);
    proof {
        lemma_object_text(
            seq![
                ("tag"@, Shape::Str("Message"@)),
                ("name"@, Shape::Str(name@)),
                ("channel"@, Shape::Str(channel@)),
                ("content"@, Shape::Str(content@)),
            ],
        );
    }
    assert(out@ =~= object_text(
        seq![
            ("tag"@, Shape::Str("Message"@)),
            ("name"@, Shape::Str(name@)),
            ("channel"@, Shape::Str(channel@)),
            ("content"@, Shape::Str(content@)),
        ],
    ));
    out
}

/// An object of a discriminant and one list field.
fn encode_listing(tag: &str, key: &str, xs: &Vec<String>) -> (r: String)
    ensures
        r@ == object_text(
            seq![("tag"@, Shape::Str(tag@)), (key@, Shape::StrList(strings_view(xs@)))],
        ),
{
    let mut out = open_with_tag(tag);
    push_list_member(&mut out, key, xs);
    close(&mut out);
    proof {
        lemma_object_text(
            seq![("tag"@, Shape::Str(tag@)), (key@, Shape::StrList(strings_view(xs@)))],
        );
    }
    assert(out@ =~= object_text(
        seq![("tag"@, Shape::Str(tag@)), (key@, Shape::StrList(strings_view(xs@)))],
    ));
    out
}

/// The wire text of a message: a JSON object whose first member is the
/// discriminant, followed by the variant's fields in declaration order.
pub fn encode(m: &MessageType) -> (r: String)
    ensures
        r@ == encoding(m@),
{
    match m {
        MessageType::Hello { name, channel } => encode_named("Hello", name.as_str(), channel.as_str()),
        MessageType::Message { name, channel, content } => encode_chat(
            name.as_str(),
            channel.as_str(),
            content.as_str(),
        ),
        MessageType::ResponseMembers { members } => encode_listing(
            "ResponseMembers",
            "members",
            members,
        ),
        MessageType::ResponseChannels { channels } => encode_listing(
            "ResponseChannels",
            "channels",
            channels,
        ),
        MessageType::Goodbye { name, channel } => encode_named(
            "Goodbye",
            name.as_str(),
            channel.as_str(),
        ),
    }
}

/// The five variant names differ from each other, and so do the member
/// names.
proof fn lemma_names_distinct()
    ensures
        "Hello"@ != "Message"@,
        "Hello"@ != "ResponseMembers"@,
        "Hello"@ != "ResponseChannels"@,
        "Hello"@ != "Goodbye"@,
        "Message"@ != "ResponseMembers"@,
        "Message"@ != "ResponseChannels"@,
        "Message"@ != "Goodbye"@,
        "ResponseMembers"@ != "ResponseChannels"@,
        "ResponseMembers"@ != "Goodbye"@,
        "ResponseChannels"@ != "Goodbye"@,
        "tag"@ != "name"@,
        "tag"@ != "channel"@,
        "tag"@ != "content"@,
        "tag"@ != "members"@,
        "tag"@ != "channels"@,
        "name"@ != "channel"@,
        "name"@ != "content"@,
        "channel"@ != "content"@,
{
    reveal_strlit("Hello");
    reveal_strlit("Message");
    reveal_strlit("ResponseMembers");
    reveal_strlit("ResponseChannels");
    reveal_strlit("Goodbye");
    reveal_strlit("tag");
    reveal_strlit("name");
    reveal_strlit("channel");
    reveal_strlit("content");
    reveal_strlit("members");
    reveal_strlit("channels");
    assert("Hello"@.len() == 5 && "Message"@.len() == 7 && "Goodbye"@.len() == 7);
    assert("ResponseMembers"@.len() == 15 && "ResponseChannels"@.len() == 16);
    assert("tag"@.len() == 3 && "name"@.len() == 4 && "channel"@.len() == 7);
    assert("content"@.len() == 7 && "members"@.len() == 7 && "channels"@.len() == 8);
    assert("Message"@[0] != "Goodbye"@[0]);
    assert("channel"@[1] != "content"@[1]);
}

/// The first member of `ms` named `key`.
fn find_member<'a>(ms: &'a Vec<(String, JsonValue)>, key: &str) -> (r: Option<&'a JsonValue>)
    ensures
        match r {
            Some(v) => find(members_view(ms@), key@) == Some(v@),
            None => find(members_view(ms@), key@) is None,
        },
{
    let ghost mv = members_view(ms@);
    let mut k: usize = 0;
    assert(mv.skip(0) =~= mv);
    while k < ms.len()
        invariant
            k <= ms@.len(),
            mv == members_view(ms@),
            find(mv, key@) == find(mv.skip(k as int), key@),
        decreases ms@.len() - k,
    {
        assert(mv.skip(k as int)[0] == mv[k as int]);
        if same_text(ms[k].0.as_str(), key) {
            return Some(&ms[k].1);
        }
        assert(mv.skip(k as int).skip(1) =~= mv.skip(k + 1));
        k = k + 1;
    }
    None
}

/// How many members of `ms` are named `key`.
fn count_members(ms: &Vec<(String, JsonValue)>, key: &str) -> (r: usize)
    ensures
        r == occurrences(members_view(ms@), key@),
{
    let ghost mv = members_view(ms@);
    let mut k: usize = 0;
    let mut c: usize = 0;
    assert(mv.skip(0) =~= mv);
    while k < ms.len()
        invariant
            c <= k <= ms@.len(),
            mv == members_view(ms@),
            occurrences(mv, key@) == c + occurrences(mv.skip(k as int), key@),
        decreases ms@.len() - k,
    {
        assert(mv.skip(k as int)[0] == mv[k as int]);
        assert(mv.skip(k as int).skip(1) =~= mv.skip(k + 1));
        if same_text(ms[k].0.as_str(), key) {
            c = c + 1;
        }
        k = k + 1;
    }
    c
}

fn copy_strings(v: &Vec<String>) -> (r: Vec<String>)
    ensures
        strings_view(r@) == strings_view(v@),
{
    let mut r: Vec<String> = Vec::new();
    let mut k: usize = 0;
    while k < v.len()
        invariant
            k <= v@.len(),
            strings_view(r@) == strings_view(v@.take(k as int)),
        decreases v@.len() - k,
    {
        let ghost before = r@;
        let s = v[k].clone();
        assert(s@ == v@[k as int]@);
        r.push(s);
        assert(v@.take(k + 1) =~= v@.take(k as int).push(v@[k as int]));
        assert(strings_view(r@) =~= strings_view(before).push(s@));
        assert(strings_view(v@.take(k + 1)) =~= strings_view(v@.take(k as int)).push(v@[k as int]@));
        k = k + 1;
    }
    assert(v@.take(k as int) =~= v@);
    r
}

fn str_field_at(ms: &Vec<(String, JsonValue)>, key: &str) -> (r: Option<String>)
    ensures
        match r {
            Some(s) => str_field(members_view(ms@), key@) == Some(s@),
            None => str_field(members_view(ms@), key@) is None,
        },
{
    if count_members(ms, key) != 1 {
        return None;
    }
    match find_member(ms, key) {
        Some(JsonValue::Str(s)) => Some(s.clone()),
        _ => None,
    }
}

fn list_field_at(ms: &Vec<(String, JsonValue)>, key: &str) -> (r: Option<Vec<String>>)
    ensures
        match r {
            Some(xs) => list_field(members_view(ms@), key@) == Some(strings_view(xs@)),
            None => list_field(members_view(ms@), key@) is None,
        },
{
    if count_members(ms, key) != 1 {
        return None;
    }
    match find_member(ms, key) {
        Some(JsonValue::StrList(xs)) => Some(copy_strings(xs)),
        _ => None,
    }
}

/// The view of a decoding result.
pub open spec fn result_view(r: Result<MessageType, DecodeError>) -> Result<
    MessageModel,
    DecodeError,
> {
    match r {
        Ok(m) => Ok(m@),
        Err(e) => Err(e),
    }
}

/// The message of variant `tag` that the members spell, as `message_of`
/// says.
fn message_from(ms: &Vec<(String, JsonValue)>, tag: &str) -> (r: Option<MessageType>)
    requires
        is_variant(tag@),
    ensures
        match r {
            Some(m) => message_of(members_view(ms@), tag@) == Some(m@),
            None => message_of(members_view(ms@), tag@) is None,
        },
{
    proof {
        lemma_names_distinct();
    }
    if count_members(ms, "tag") != 1 {
        return None;
    }
    if same_text(tag, "Hello") || same_text(tag, "Goodbye") {
        let name = str_field_at(ms, "name");
        let channel = str_field_at(ms, "channel");
        match (name, channel) {
            (Some(name), Some(channel)) => if same_text(tag, "Hello") {
                Some(MessageType::Hello { name, channel })
            } else {
                Some(MessageType::Goodbye { name, channel })
            },
            _ => None,
        }
    } else if same_text(tag, "Message") {
        let name = str_field_at(ms, "name");
        let channel = str_field_at(ms, "channel");
        let content = str_field_at(ms, "content");
        match (name, channel, content) {
            (Some(name), Some(channel), Some(content)) => Some(
                MessageType::Message { name, channel, content },
            ),
            _ => None,
        }
    } else if same_text(tag, "ResponseMembers") {
        match list_field_at(ms, "members") {
            Some(members) => Some(MessageType::ResponseMembers { members }),
            None => None,
        }
    } else {
        match list_field_at(ms, "channels") {
            Some(channels) => Some(MessageType::ResponseChannels { channels }),
            None => None,
        }
    }
}

/// Whether `s` names a variant.
fn is_variant_name(s: &str) -> (r: bool)
    ensures
        r == is_variant(s@),
{
    same_text(s, "Hello") || same_text(s, "Message") || same_text(s, "ResponseMembers")
        || same_text(s, "ResponseChannels") || same_text(s, "Goodbye")
}

/// Reads a payload back as a message, as `decoding` says.
pub fn decode(payload: &str) -> (r: Result<MessageType, DecodeError>)
    ensures
        result_view(r) == decoding(payload@),
{
    let t = chars_of(payload);
    let ms = match document_at(&t) {
        Some(ms) => ms,
        None => {
            return Err(DecodeError::MalformedPayload);
        },
    };
    let tag = match find_member(&ms, "tag") {
        Some(JsonValue::Str(s)) => s.as_str(),
        _ => {
            return Err(DecodeError::MalformedPayload);
        },
    };
    if !is_variant_name(tag) {
        return Err(DecodeError::MalformedPayload);
    }
    match message_from(&ms, tag) {
        Some(m) => Ok(m),
        None => Err(DecodeError::SchemaMismatch),
    }
}

/// The member values are strings or lists of strings.
pub open spec fn plain(ms: Seq<(Seq<char>, Shape)>) -> bool {
    forall|i: int| 0 <= i < ms.len() ==> !((#[trigger] ms[i]).1 is Other)
}

#[verifier::rlimit(100)]
proof fn lemma_member(k: Seq<char>, v: Shape, r: Seq<char>)
    requires
        !(v is Other),
    ensures
        member(member_text(k, v) + r) == Some(((k, v), member_text(k, v).len() as int)),
{
    let t = member_text(k, v) + r;
    let a = quoted(k).len() as int;
    assert(t[0] == '"');
    assert(ws_len(t) == 0);
    assert(t.skip(0) =~= t);
    assert(t =~= quoted(k) + (seq![':'] + shape_text(v) + r));
    lemma_parse_quoted(k, seq![':'] + shape_text(v) + r);
    assert(parse_quoted(t.skip(ws_len(t))) == Some((k, a)));
    let r1 = t.skip(a);
    assert(r1 =~= seq![':'] + shape_text(v) + r);
    assert(ws_len(r1) == 0);
    assert(t.skip(a + 1) =~= shape_text(v) + r);
    let n = shape_text(v).len() as int;
    match v {
        Shape::Str(s) => {
            lemma_value_quoted(s, r);
        },
        Shape::StrList(xs) => {
            lemma_value_list(xs, r);
        },
        Shape::Other => {},
    }
    assert(value(t.skip(a + 1)) == Some((v, n)));
    assert(a + 1 + n == member_text(k, v).len());
}

#[verifier::rlimit(100)]
proof fn lemma_members(e: (Seq<char>, Shape), ms: Seq<(Seq<char>, Shape)>, r: Seq<char>)
    requires
        !(e.1 is Other),
        plain(ms),
    ensures
        members(member_text(e.0, e.1) + members_rest(ms) + r) == Some(
            (seq![e] + ms, member_text(e.0, e.1).len() + members_rest(ms).len() as int),
        ),
    decreases ms.len(),
{
    let rest = members_rest(ms) + r;
    let t = member_text(e.0, e.1) + rest;
    assert(member_text(e.0, e.1) + members_rest(ms) + r =~= t);
    lemma_member(e.0, e.1, rest);
    let q = member_text(e.0, e.1).len() as int;
    assert(t.skip(q) =~= rest);
    if ms.len() == 0 {
        assert(rest[0] == '}');
        assert(ws_len(rest) == 0);
        assert(seq![e] + ms =~= seq![e]);
    } else {
        assert(rest[0] == ',');
        assert(ws_len(rest) == 0);
        assert(rest.skip(1) =~= member_text(ms[0].0, ms[0].1) + members_rest(ms.skip(1)) + r);
        assert(!(ms[0].1 is Other));
        assert(plain(ms.skip(1))) by {
            assert forall|i: int| 0 <= i < ms.skip(1).len() implies !((
            #[trigger] ms.skip(1)[i]).1 is Other) by {
                assert(ms.skip(1)[i] == ms[i + 1]);
            }
        }
        lemma_members(ms[0], ms.skip(1), r);
        assert(seq![e] + (seq![ms[0]] + ms.skip(1)) =~= seq![e] + ms);
    }
}

/// An object written without whitespace reads back as its members.
proof fn lemma_document(ms: Seq<(Seq<char>, Shape)>)
    requires
        ms.len() > 0,
        plain(ms),
    ensures
        document(object_text(ms)) == Some(ms),
{
    reveal(document);
    let t = object_text(ms);
    assert(t[0] == '{');
    assert(ws_len(t) == 0);
    let u = t.skip(1);
    assert(u =~= member_text(ms[0].0, ms[0].1) + members_rest(ms.skip(1)) + seq![]);
    assert(u[0] == '"');
    assert(ws_len(u) == 0);
    assert(!(ms[0].1 is Other));
    assert(plain(ms.skip(1))) by {
        assert forall|i: int| 0 <= i < ms.skip(1).len() implies !((
        #[trigger] ms.skip(1)[i]).1 is Other) by {
            assert(ms.skip(1)[i] == ms[i + 1]);
        }
    }
    lemma_members(ms[0], ms.skip(1), seq![]);
    assert(seq![ms[0]] + ms.skip(1) =~= ms);
    assert(t.skip(t.len() as int) =~= seq![]);
    assert(ws_len(seq![]) == 0);
}

/// A key that exactly one member holds is found there, once.
proof fn lemma_lookup(ms: Seq<(Seq<char>, Shape)>, i: int, key: Seq<char>)
    requires
        0 <= i < ms.len(),
        ms[i].0 == key,
        forall|j: int| 0 <= j < ms.len() && j != i ==> (#[trigger] ms[j]).0 != key,
    ensures
        find(ms, key) == Some(ms[i].1),
        occurrences(ms, key) == 1,
    decreases ms.len(),
{
    if i == 0 {
        lemma_absent(ms.skip(1), key);
    } else {
        assert(ms[0].0 != key);
        assert forall|j: int| 0 <= j < ms.skip(1).len() && j != i - 1 implies (
        #[trigger] ms.skip(1)[j]).0 != key by {
            assert(ms.skip(1)[j] == ms[j + 1]);
        }
        lemma_lookup(ms.skip(1), i - 1, key);
    }
}

proof fn lemma_absent(ms: Seq<(Seq<char>, Shape)>, key: Seq<char>)
    requires
        forall|j: int| 0 <= j < ms.len() ==> (#[trigger] ms[j]).0 != key,
    ensures
        occurrences(ms, key) == 0,
    decreases ms.len(),
{
    if ms.len() > 0 {
        assert(ms[0].0 != key);
        assert forall|j: int| 0 <= j < ms.skip(1).len() implies (#[trigger] ms.skip(1)[j]).0
            != key by {
            assert(ms.skip(1)[j] == ms[j + 1]);
        }
        lemma_absent(ms.skip(1), key);
    }
}

/// Round trip: decoding the encoding of any message gives that message back.
pub proof fn lemma_round_trip(m: MessageModel)
    ensures
        decoding(encoding(m)) == Ok::<MessageModel, DecodeError>(m),
{
    let ms = fields(m);
    assert(plain(ms));
    lemma_document(ms);
    lemma_names_distinct();
    lemma_lookup(ms, 0, "tag"@);
    match m {
        MessageModel::Hello { .. } => {
            lemma_lookup(ms, 1, "name"@);
            lemma_lookup(ms, 2, "channel"@);
        },
        MessageModel::Message { .. } => {
            lemma_lookup(ms, 1, "name"@);
            lemma_lookup(ms, 2, "channel"@);
            lemma_lookup(ms, 3, "content"@);
        },
        MessageModel::ResponseMembers { .. } => {
            lemma_lookup(ms, 1, "members"@);
        },
        MessageModel::ResponseChannels { .. } => {
            lemma_lookup(ms, 1, "channels"@);
        },
        MessageModel::Goodbye { .. } => {
            lemma_lookup(ms, 1, "name"@);
            lemma_lookup(ms, 2, "channel"@);
        },
    }
}

/// A payload that is a JSON object whose `"tag"` names no variant is
/// malformed, whatever else it holds.
pub proof fn lemma_unknown_tag(s: Seq<char>, t: Seq<char>)
    requires
        document(s) is Some,
        find(document(s)->0, "tag"@) == Some(Shape::Str(t)),
        !is_variant(t),
    ensures
        decoding(s) == Err::<MessageModel, DecodeError>(DecodeError::MalformedPayload),
{
}

/// A payload that is a JSON object whose tag names a variant with a `name`
/// field, but that has no `name` member, mismatches the schema, wherever
/// the tag stands and however the object is laid out.
pub proof fn lemma_missing_name(s: Seq<char>)
    requires
        document(s) is Some,
        tag_of(document(s)->0) == Some("Hello"@) || tag_of(document(s)->0) == Some("Message"@)
            || tag_of(document(s)->0) == Some("Goodbye"@),
        find(document(s)->0, "name"@) is None,
    ensures
        decoding(s) == Err::<MessageModel, DecodeError>(DecodeError::SchemaMismatch),
{
    lemma_names_distinct();
    lemma_find_none_count(document(s)->0, "name"@);
}

proof fn lemma_find_none_count(ms: Seq<(Seq<char>, Shape)>, key: Seq<char>)
    requires
        find(ms, key) is None,
    ensures
        occurrences(ms, key) == 0,
    decreases ms.len(),
{
    if ms.len() > 0 {
        lemma_find_none_count(ms.skip(1), key);
    }
}

} // verus!
