//! The wire grammar of the chat protocol: the `{"messages":[...]}` envelope
//! that the registry broadcasts, and the `{"messageType":...,"message":...}`
//! frame that clients send.

use vstd::prelude::*;
use vstd::string::StringExecFns;
use vstd::string::StrSliceExecFns;

use crate::messages::ClientWsMessage;
use crate::messages::ClientWsMessageType;
use crate::messages::ServerActorMessage;
use crate::messages::ServerActorMessages;
use crate::messages::ServerMsgModel;
use crate::messages::server_msg_models;
use crate::text::dec_int;
use crate::text::dec_digit_char;
use crate::text::push_dec_i64;
use crate::text::str_to_chars;

verus! {

/// The character for one hexadecimal digit value, lower case.
pub open spec fn hex_digit_char(d: int) -> char {
    if d < 10 {
        dec_digit_char(d)
    } else {
        ((87 + d) as u8) as char
    }
}

/// How one character is written inside a JSON string: quote, backslash and
/// the common control characters get a two-character escape, the remaining
/// control characters a `\u00XX` escape, and every other character stands
/// as itself.
pub open spec fn escape_char(c: char) -> Seq<char> {
    if c == '"' {
        seq!['\\', '"']
    } else if c == '\\' {
        seq!['\\', '\\']
    } else if c == '\n' {
        seq!['\\', 'n']
    } else if c == '\r' {
        seq!['\\', 'r']
    } else if c == '\t' {
        seq!['\\', 't']
    } else if (c as u32) < 0x20 {
        seq!['\\', 'u', '0', '0', hex_digit_char((c as u32 >> 4) as int), hex_digit_char(
            (c as u32 & 0xf) as int,
        )]
    } else {
        seq![c]
    }
}

/// The body of a JSON string holding the characters of `s`.
pub open spec fn json_escaped(s: Seq<char>) -> Seq<char>
    decreases s.len(),
{
    if s.len() == 0 {
        Seq::empty()
    } else {
        json_escaped(s.drop_last()) + escape_char(s.last())
    }
}

/// Appends the escaped body of `s` to `out`.
pub fn push_json_escaped(out: &mut String, s: &str)
    ensures
        final(out)@ == old(out)@ + json_escaped(s@),
{
    let n = s.unicode_len();
    let mut i: usize = 0;
    while i < n
        invariant
            n == s@.len(),
            i <= n,
            out@ == old(out)@ + json_escaped(s@.take(i as int)),
        decreases n - i,
    {
        let c = s.get_char(i);
        if c == '"' {
            out.push('\\');
            out.push('"');
        } else if c == '\\' {
            out.push('\\');
            out.push('\\');
        } else if c == '\n' {
            out.push('\\');
            out.push('n');
        } else if c == '\r' {
            out.push('\\');
            out.push('r');
        } else if c == '\t' {
            out.push('\\');
            out.push('t');
        } else if (c as u32) < 0x20 {
            out.push('\\');
            out.push('u');
            out.push('0');
            out.push('0');
            let cv: u32 = c as u32;
            let hi: u32 = cv >> 4;
            let lo: u32 = cv & 0xf;
            assert(hi < 16 && lo < 16) by (bit_vector)
                requires hi == cv >> 4 && lo == cv & 0xf && cv < 0x20;
            out.push(if hi < 10 { (48 + hi as u8) as char } else { (87 + hi as u8) as char });
            out.push(if lo < 10 { (48 + lo as u8) as char } else { (87 + lo as u8) as char });
        } else {
            out.push(c);
        }
        proof {
            assert(s@.take(i + 1).drop_last() =~= s@.take(i as int));
            assert(s@.take(i + 1).last() == s@[i as int]);
            assert(out@ =~= old(out)@ + json_escaped(s@.take(i + 1)));
        }
        i = i + 1;
    }
    assert(s@.take(n as int) =~= s@);
}

/// One chat message as a JSON object, fields in the order the envelope
/// promises: message, senderName, senderId, createdAt.
pub open spec fn server_msg_json(m: ServerMsgModel) -> Seq<char> {
    "{\"message\":\""@ + json_escaped(m.message) + "\",\"senderName\":\""@ + json_escaped(
        m.sender_name,
    ) + "\",\"senderId\":"@ + dec_int(m.sender_id) + ",\"createdAt\":\""@ + json_escaped(
        m.created_at,
    ) + "\"}"@
}

/// The comma-separated list of message objects, in sequence order.
pub open spec fn server_msgs_list(ms: Seq<ServerMsgModel>) -> Seq<char>
    decreases ms.len(),
{
    if ms.len() == 0 {
        Seq::empty()
    } else if ms.len() == 1 {
        server_msg_json(ms[0])
    } else {
        server_msgs_list(ms.drop_last()) + seq![','] + server_msg_json(ms.last())
    }
}

/// The full broadcast envelope: the message list wrapped in
/// `{"messages":[...]}`.
pub open spec fn server_messages_json(ms: Seq<ServerMsgModel>) -> Seq<char> {
    "{\"messages\":["@ + server_msgs_list(ms) + "]}"@
}

/// Appends one message object to `out`.
fn push_server_msg(out: &mut String, m: &ServerActorMessage)
    ensures
        final(out)@ == old(out)@ + server_msg_json(m@),
{
    out.append("{\"message\":\"");
    push_json_escaped(out, m.message.as_str());
    out.append("\",\"senderName\":\"");
    push_json_escaped(out, m.sender_name.as_str());
    out.append("\",\"senderId\":");
    push_dec_i64(out, m.sender_id);
    out.append(",\"createdAt\":\"");
    push_json_escaped(out, m.created_at.as_str());
    out.append("\"}");
    assert(out@ =~= old(out)@ + server_msg_json(m@));
}

/// Serializes the broadcast envelope, keeping the order of its messages.
pub fn encode_server_messages(env: &ServerActorMessages) -> (r: String)
    ensures
        r@ == server_messages_json(server_msg_models(env.messages@)),
{
    let msgs = &env.messages;
    let mut out = String::new();
    out.append("{\"messages\":[");
    let n = msgs.len();
    let mut i: usize = 0;
    while i < n
        invariant
            n == msgs@.len(),
            i <= n,
            out@ == "{\"messages\":["@ + server_msgs_list(server_msg_models(msgs@.take(i as int))),
        decreases n - i,
    {
        if i > 0 {
            out.push(',');
        }
        push_server_msg(&mut out, &msgs[i]);
        proof {
            assert(server_msg_models(msgs@.take(i + 1)).drop_last() =~= server_msg_models(
                msgs@.take(i as int),
            ));
            assert(server_msg_models(msgs@.take(i + 1)).last() == msgs@[i as int]@);
            if i == 0 {
                assert(server_msg_models(msgs@.take(1)) =~= seq![msgs@[0]@]);
                assert(server_msgs_list(server_msg_models(msgs@.take(1))) == server_msg_json(
                    msgs@[0]@,
                ));
            }
            assert(out@ =~= "{\"messages\":["@ + server_msgs_list(server_msg_models(msgs@.take(i + 1))));
        }
        i = i + 1;
    }
    out.append("]}");
    proof {
        assert(msgs@.take(n as int) =~= msgs@);
        assert(out@ =~= server_messages_json(server_msg_models(msgs@)));
    }
    out
}

/// Relies on `char::from_u32` from std: `Some` exactly for values that are
/// Unicode scalar values (not surrogates, not above the maximum), holding
/// the character with that value.
pub assume_specification[ char::from_u32 ](u: u32) -> (r: Option<char>)
    ensures
        r is Some <==> (u < 0xD800 || (0xE000 <= u && u <= 0x10FFFF)),
        r matches Some(c) ==> c as u32 == u,
;

/// Whether `c` is insignificant whitespace between JSON tokens.
pub open spec fn is_json_ws(c: char) -> bool {
    c == ' ' || c == '\t' || c == '\n' || c == '\r'
}

/// The index of the first non-whitespace character at or after `i`.
pub open spec fn spec_skip_ws(s: Seq<char>, i: int) -> int
    decreases s.len() - i,
    when 0 <= i <= s.len()
{
    if i >= s.len() || !is_json_ws(s[i]) {
        i
    } else {
        spec_skip_ws(s, i + 1)
    }
}

fn skip_ws(v: &Vec<char>, i: usize) -> (r: usize)
    requires
        i <= v@.len(),
    ensures
        r as int == spec_skip_ws(v@, i as int),
        i <= r <= v@.len(),
{
    let n = v.len();
    let mut cur: usize = i;
    loop
        invariant_except_break
            n == v@.len(),
            i <= cur <= n,
            spec_skip_ws(v@, i as int) == spec_skip_ws(v@, cur as int),
        ensures
            i <= cur <= n,
            n == v@.len(),
            cur as int == spec_skip_ws(v@, i as int),
        decreases n - cur,
    {
        if cur >= n {
            break;
        }
        let c = v[cur];
        if !(c == ' ' || c == '\t' || c == '\n' || c == '\r') {
            break;
        }
        cur = cur + 1;
    }
    cur
}

/// Whether `c` is a hexadecimal digit.
pub open spec fn is_hex_digit(c: char) -> bool {
    ('0' <= c && c <= '9') || ('a' <= c && c <= 'f') || ('A' <= c && c <= 'F')
}

/// The value of a hexadecimal digit character.
pub open spec fn hex_val(c: char) -> int {
    if '0' <= c && c <= '9' {
        c as int - 48
    } else if 'a' <= c && c <= 'f' {
        c as int - 87
    } else {
        c as int - 55
    }
}

/// The character a two-character escape `\e` stands for, if `e` names one.
pub open spec fn simple_escape(e: char) -> Option<char> {
    if e == '"' {
        Some('"')
    } else if e == '\\' {
        Some('\\')
    } else if e == '/' {
        Some('/')
    } else if e == 'b' {
        Some('\u{8}')
    } else if e == 'f' {
        Some('\u{c}')
    } else if e == 'n' {
        Some('\n')
    } else if e == 'r' {
        Some('\r')
    } else if e == 't' {
        Some('\t')
    } else {
        None
    }
}

/// What the body of a JSON string starting at `i` (just after the opening
/// quote) holds, and the index just after the closing quote. Two-character
/// escapes and `\uXXXX` scalar escapes are decoded; a `\uXXXX` escape
/// naming a surrogate is refused, as is an unterminated or malformed body.
pub open spec fn spec_string_body(s: Seq<char>, i: int) -> Option<(Seq<char>, int)>
    decreases s.len() - i,
    when 0 <= i <= s.len()
{
    if i >= s.len() {
        None
    } else if s[i] == '"' {
        Some((Seq::empty(), i + 1))
    } else if s[i] == '\\' {
        if i + 1 >= s.len() {
            None
        } else if s[i + 1] == 'u' {
            if i + 6 <= s.len() && is_hex_digit(s[i + 2]) && is_hex_digit(s[i + 3]) && is_hex_digit(
                s[i + 4],
            ) && is_hex_digit(s[i + 5]) {
                let code = hex_val(s[i + 2]) * 4096 + hex_val(s[i + 3]) * 256 + hex_val(s[i + 4])
                    * 16 + hex_val(s[i + 5]);
                if 0xd800 <= code <= 0xdfff {
                    None
                } else {
                    match spec_string_body(s, i + 6) {
                        Some((rest, n)) => Some((seq![(code as u32) as char] + rest, n)),
                        None => None,
                    }
                }
            } else {
                None
            }
        } else {
            match simple_escape(s[i + 1]) {
                Some(c) => match spec_string_body(s, i + 2) {
                    Some((rest, n)) => Some((seq![c] + rest, n)),
                    None => None,
                },
                None => None,
            }
        }
    } else {
        match spec_string_body(s, i + 1) {
            Some((rest, n)) => Some((seq![s[i]] + rest, n)),
            None => None,
        }
    }
}

/// `o` with `p` prepended to its content, when it holds one.
pub open spec fn body_prepend(p: Seq<char>, o: Option<(Seq<char>, int)>) -> Option<
    (Seq<char>, int),
> {
    match o {
        Some((c, n)) => Some((p + c, n)),
        None => None,
    }
}

/// Reads a JSON string body from `v` starting at `i` (just after the
/// opening quote).
fn parse_string_body(v: &Vec<char>, i: usize) -> (r: Option<(String, usize)>)
    requires
        i <= v@.len(),
    ensures
        match r {
            Some(p) => spec_string_body(v@, i as int) == Some((p.0@, p.1 as int)) && i < p.1
                <= v@.len(),
            None => spec_string_body(v@, i as int) is None,
        },
{
    let n = v.len();
    let mut cur: usize = i;
    let mut acc = String::new();
    loop
        invariant
            n == v@.len(),
            i <= cur <= n,
            spec_string_body(v@, i as int) == body_prepend(acc@, spec_string_body(v@, cur as int)),
        decreases n - cur,
    {
        if cur >= n {
            return None;
        }
        let c = v[cur];
        if c == '"' {
            proof {
                assert(spec_string_body(v@, cur as int) == Some((Seq::<char>::empty(), cur + 1)));
                assert(acc@ + Seq::<char>::empty() =~= acc@);
            }
            return Some((acc, cur + 1));
        } else if c == '\\' {
            if n - cur < 2 {
                return None;
            }
            let e = v[cur + 1];
            if e == 'u' {
                if n - cur < 6 {
                    return None;
                }
                let h0 = v[cur + 2];
                let h1 = v[cur + 3];
                let h2 = v[cur + 4];
                let h3 = v[cur + 5];
                if !(hex_digit_ok(h0) && hex_digit_ok(h1) && hex_digit_ok(h2) && hex_digit_ok(h3)) {
                    return None;
                }
                let code: u32 = hex_digit_value(h0) * 4096 + hex_digit_value(h1) * 256
                    + hex_digit_value(h2) * 16 + hex_digit_value(h3);
                if 0xd800 <= code && code <= 0xdfff {
                    return None;
                }
                match char::from_u32(code) {
                    Some(ch) => {
                        proof {
                            vstd::utf8::char_u32_cast(ch, code);
                        }
                        let ghost prev = acc@;
                        acc.push(ch);
                        proof {
                            match spec_string_body(v@, cur + 6) {
                Some(p) => {
                    let rest = p.0;
                    assert(prev.push(ch) + rest =~= prev + (seq![ch] + rest));
                },
                None => {},
            }
                        }
                        cur = cur + 6;
                    },
                    None => {
                        return None;
                    },
                }
            } else {
                let decoded: Option<char> = if e == '"' {
                    Some('"')
                } else if e == '\\' {
                    Some('\\')
                } else if e == '/' {
                    Some('/')
                } else if e == 'b' {
                    Some('\u{8}')
                } else if e == 'f' {
                    Some('\u{c}')
                } else if e == 'n' {
                    Some('\n')
                } else if e == 'r' {
                    Some('\r')
                } else if e == 't' {
                    Some('\t')
                } else {
                    None
                };
                match decoded {
                    Some(ch) => {
                        assert(simple_escape(e) == Some(ch));
                        let ghost prev = acc@;
                        acc.push(ch);
                        proof {
                            match spec_string_body(v@, cur + 2) {
                Some(p) => {
                    let rest = p.0;
                    assert(prev.push(ch) + rest =~= prev + (seq![ch] + rest));
                },
                None => {},
            }
                        }
                        cur = cur + 2;
                    },
                    None => {
                        return None;
                    },
                }
            }
        } else {
            let ghost prev = acc@;
            acc.push(c);
            proof {
                match spec_string_body(v@, cur + 1) {
                Some(p) => {
                    let rest = p.0;
                    assert(prev.push(c) + rest =~= prev + (seq![c] + rest));
                },
                None => {},
            }
            }
            cur = cur + 1;
        }
    }
}

/// Whether `c` is a hexadecimal digit.
fn hex_digit_ok(c: char) -> (r: bool)
    ensures
        r == is_hex_digit(c),
{
    ('0' <= c && c <= '9') || ('a' <= c && c <= 'f') || ('A' <= c && c <= 'F')
}

/// The value of a hexadecimal digit character.
fn hex_digit_value(c: char) -> (r: u32)
    requires
        is_hex_digit(c),
    ensures
        r as int == hex_val(c),
        r < 16,
{
    if '0' <= c && c <= '9' {
        c as u32 - 48
    } else if 'a' <= c && c <= 'f' {
        c as u32 - 87
    } else {
        c as u32 - 55
    }
}

/// A JSON string starting with its opening quote at `i`: its decoded
/// content and the index just after the closing quote.
pub open spec fn spec_parse_string(s: Seq<char>, i: int) -> Option<(Seq<char>, int)> {
    if 0 <= i < s.len() && s[i] == '"' {
        spec_string_body(s, i + 1)
    } else {
        None
    }
}

fn parse_string(v: &Vec<char>, i: usize) -> (r: Option<(String, usize)>)
    requires
        i <= v@.len(),
    ensures
        match r {
            Some(p) => spec_parse_string(v@, i as int) == Some((p.0@, p.1 as int)) && i < p.1
                <= v@.len(),
            None => spec_parse_string(v@, i as int) is None,
        },
{
    if i < v.len() && v[i] == '"' {
        parse_string_body(v, i + 1)
    } else {
        None
    }
}

/// One `"key": "value"` member starting at `i`: both strings, with JSON
/// whitespace allowed around the colon.
pub open spec fn spec_parse_member(s: Seq<char>, i: int) -> Option<((Seq<char>, Seq<char>), int)> {
    match spec_parse_string(s, i) {
        Some((key, j)) => {
            let j2 = spec_skip_ws(s, j);
            if j2 < s.len() && s[j2] == ':' {
                let j3 = spec_skip_ws(s, j2 + 1);
                match spec_parse_string(s, j3) {
                    Some((val, j4)) => Some(((key, val), j4)),
                    None => None,
                }
            } else {
                None
            }
        },
        None => None,
    }
}

fn parse_member(v: &Vec<char>, i: usize) -> (r: Option<((String, String), usize)>)
    requires
        i <= v@.len(),
    ensures
        match r {
            Some(p) => spec_parse_member(v@, i as int) == Some(
                (((p.0).0@, (p.0).1@), p.1 as int),
            ) && i < p.1 <= v@.len(),
            None => spec_parse_member(v@, i as int) is None,
        },
{
    match parse_string(v, i) {
        Some((key, j)) => {
            let j2 = skip_ws(v, j);
            if j2 < v.len() && v[j2] == ':' {
                let j3 = skip_ws(v, j2 + 1);
                match parse_string(v, j3) {
                    Some((val, j4)) => Some(((key, val), j4)),
                    None => None,
                }
            } else {
                None
            }
        },
        None => None,
    }
}

/// The two member values of a client frame: the whole text must be one
/// JSON object holding exactly a `messageType` member and a `message`
/// member, in either order, both with string values.
pub open spec fn spec_frame_fields(s: Seq<char>) -> Option<(Seq<char>, Seq<char>)> {
    let i0 = spec_skip_ws(s, 0);
    if i0 < s.len() && s[i0] == '{' {
        let i1 = spec_skip_ws(s, i0 + 1);
        match spec_parse_member(s, i1) {
            Some(((k1, v1), j1)) => {
                let j2 = spec_skip_ws(s, j1);
                if j2 < s.len() && s[j2] == ',' {
                    let j3 = spec_skip_ws(s, j2 + 1);
                    match spec_parse_member(s, j3) {
                        Some(((k2, v2), j4)) => {
                            let j5 = spec_skip_ws(s, j4);
                            if j5 < s.len() && s[j5] == '}' && spec_skip_ws(s, j5 + 1) == s.len() {
                                if k1 == "messageType"@ && k2 == "message"@ {
                                    Some((v1, v2))
                                } else if k1 == "message"@ && k2 == "messageType"@ {
                                    Some((v2, v1))
                                } else {
                                    None
                                }
                            } else {
                                None
                            }
                        },
                        None => None,
                    }
                } else {
                    None
                }
            },
            None => None,
        }
    } else {
        None
    }
}

/// The tag a `messageType` value names.
pub open spec fn spec_type_of_text(t: Seq<char>) -> Option<ClientWsMessageType> {
    if t == "Message"@ {
        Some(ClientWsMessageType::Message)
    } else if t == "Closed"@ {
        Some(ClientWsMessageType::Closed)
    } else if t == "Editing"@ {
        Some(ClientWsMessageType::Editing)
    } else if t == "MessageDelete"@ {
        Some(ClientWsMessageType::MessageDelete)
    } else {
        None
    }
}

/// What a whole inbound text frame means: a tag and a message body, or
/// nothing when the text is not a well-formed client frame.
pub open spec fn spec_parse_client_frame(s: Seq<char>) -> Option<(ClientWsMessageType, Seq<char>)> {
    match spec_frame_fields(s) {
        Some((ty, msg)) => match spec_type_of_text(ty) {
            Some(t) => Some((t, msg)),
            None => None,
        },
        None => None,
    }
}

/// Whether the string `a` spells exactly the literal `l`.
fn string_eq_lit(a: &String, l: &str) -> (r: bool)
    ensures
        r == (a@ == l@),
{
    let v = str_to_chars(a.as_str());
    crate::text::chars_eq_str(&v, l)
}

/// Parses one inbound text frame as a structured client event; anything
/// malformed is refused.
pub fn parse_client_frame(s: &str) -> (r: Option<ClientWsMessage>)
    ensures
        match r {
            Some(m) => spec_parse_client_frame(s@) == Some((m.message_type, m.message@)),
            None => spec_parse_client_frame(s@) is None,
        },
{
    let v = str_to_chars(s);
    let n = v.len();
    let i0 = skip_ws(&v, 0);
    if !(i0 < n && v[i0] == '{') {
        return None;
    }
    let i1 = skip_ws(&v, i0 + 1);
    let m1 = parse_member(&v, i1);
    let (k1, v1, j1) = match m1 {
        Some(((k, val), j)) => (k, val, j),
        None => {
            return None;
        },
    };
    let j2 = skip_ws(&v, j1);
    if !(j2 < n && v[j2] == ',') {
        return None;
    }
    let j3 = skip_ws(&v, j2 + 1);
    let m2 = parse_member(&v, j3);
    let (k2, v2, j4) = match m2 {
        Some(((k, val), j)) => (k, val, j),
        None => {
            return None;
        },
    };
    let j5 = skip_ws(&v, j4);
    if !(j5 < n && v[j5] == '}') {
        return None;
    }
    if skip_ws(&v, j5 + 1) != n {
        return None;
    }
    let first_is_type = string_eq_lit(&k1, "messageType");
    let first_is_msg = string_eq_lit(&k1, "message");
    let second_is_type = string_eq_lit(&k2, "messageType");
    let second_is_msg = string_eq_lit(&k2, "message");
    let (ty_text, msg_text) = if first_is_type && second_is_msg {
        (v1, v2)
    } else if first_is_msg && second_is_type {
        (v2, v1)
    } else {
        return None;
    };
    let ty: ClientWsMessageType = if string_eq_lit(&ty_text, "Message") {
        ClientWsMessageType::Message
    } else if string_eq_lit(&ty_text, "Closed") {
        ClientWsMessageType::Closed
    } else if string_eq_lit(&ty_text, "Editing") {
        ClientWsMessageType::Editing
    } else if string_eq_lit(&ty_text, "MessageDelete") {
        ClientWsMessageType::MessageDelete
    } else {
        return None;
    };
    Some(ClientWsMessage { message_type: ty, message: msg_text })
}

} // verus!
