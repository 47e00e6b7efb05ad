//! Encoding protocol packets as single-line JSON.
//!
//! One packet becomes one JSON object whose single key names the variant,
//! exactly as the wire format has it: `{"Join":{"group_name":"..."}}`,
//! `{"Post":{"group_name":"...","message":"..."}}`, and for the server's side
//! `{"Message":{"group_name":"...","message":"..."}}` and `{"Error":"..."}`.
//! String contents are escaped the way JSON demands: quote and backslash get
//! a backslash, the named control characters their short forms, and the
//! remaining control characters a `\u00..` sequence.

use crate::protocol::{FromClient, FromServer};
use vstd::prelude::*;

verus! {

/// The hexadecimal digit character for a value below sixteen.
pub open spec fn hex_digit(d: nat) -> char {
    if d == 0 {
        '0'
    } else if d == 1 {
        '1'
    } else if d == 2 {
        '2'
    } else if d == 3 {
        '3'
    } else if d == 4 {
        '4'
    } else if d == 5 {
        '5'
    } else if d == 6 {
        '6'
    } else if d == 7 {
        '7'
    } else if d == 8 {
        '8'
    } else if d == 9 {
        '9'
    } else if d == 10 {
        'a'
    } else if d == 11 {
        'b'
    } else if d == 12 {
        'c'
    } else if d == 13 {
        'd'
    } else if d == 14 {
        'e'
    } else {
        'f'
    }
}

/// How one character appears inside a JSON string literal.
pub open spec fn escaped_char(c: char) -> Seq<char> {
    if c == '"' {
        seq!['\\', '"']
    } else if c == '\\' {
        seq!['\\', '\\']
    } else if c == '\n' {
        seq!['\\', 'n']
    } else if c == '\r' {
        seq!['\\', 'r']
    } else if c == '\t' {
        seq!['\\', 't']
    } else if c == '\u{8}' {
        seq!['\\', 'b']
    } else if c == '\u{c}' {
        seq!['\\', 'f']
    } else if (c as nat) < 32 {
        seq!['\\', 'u', '0', '0', hex_digit((c as nat) / 16), hex_digit((c as nat) % 16)]
    } else {
        seq![c]
    }
}

/// How a whole text appears inside a JSON string literal.
pub open spec fn escape_text(s: Seq<char>) -> Seq<char>
    decreases s.len(),
{
    if s.len() == 0 {
        Seq::empty()
    } else {
        escaped_char(s[0]) + escape_text(s.skip(1))
    }
}

/// A JSON string literal: the escaped text between double quotes.
pub open spec fn quoted(s: Seq<char>) -> Seq<char> {
    seq!['"'] + escape_text(s) + seq!['"']
}

/// The JSON line for a join request.
pub open spec fn join_json(group: Seq<char>) -> Seq<char> {
    "{\"Join\":{\"group_name\":"@ + quoted(group) + "}}"@
}

/// The JSON line for a post request.
pub open spec fn post_json(group: Seq<char>, message: Seq<char>) -> Seq<char> {
    "{\"Post\":{\"group_name\":"@ + quoted(group) + ",\"message\":"@ + quoted(message) + "}}"@
}

/// The JSON line for a delivered message.
pub open spec fn message_json(group: Seq<char>, message: Seq<char>) -> Seq<char> {
    "{\"Message\":{\"group_name\":"@ + quoted(group) + ",\"message\":"@ + quoted(message) + "}}"@
}

/// The JSON line for an error report.
pub open spec fn error_json(message: Seq<char>) -> Seq<char> {
    "{\"Error\":"@ + quoted(message) + "}"@
}

/// Escaping distributes over extending the text by one character.
proof fn lemma_escape_text_snoc(s: Seq<char>, c: char)
    ensures
        escape_text(s.push(c)) == escape_text(s) + escaped_char(c),
    decreases s.len(),
{
    if s.len() == 0 {
        assert(s.push(c)[0] == c);
        assert(s.push(c).skip(1) =~= Seq::<char>::empty());
        assert(escape_text(Seq::<char>::empty()) == Seq::<char>::empty());
        assert(escape_text(s.push(c)) == escaped_char(c) + escape_text(s.push(c).skip(1)));
        assert(escape_text(s.push(c)) =~= escape_text(s) + escaped_char(c));
    } else {
        assert(s.push(c)[0] == s[0]);
        assert(s.push(c).skip(1) =~= s.skip(1).push(c));
        lemma_escape_text_snoc(s.skip(1), c);
        assert(escape_text(s.push(c)) == escaped_char(s[0]) + escape_text(s.skip(1).push(c)));
        assert(escape_text(s.push(c)) =~= escape_text(s) + escaped_char(c));
    }
}

/// The two-character string for a hexadecimal byte below `0x20`.
fn low_hex_str(value: u32) -> (s: &'static str)
    requires
        value < 32,
    ensures
        s@ == seq![hex_digit((value as nat) / 16), hex_digit((value as nat) % 16)],
{
    let s: &'static str = match value {
        0 => "00",
        1 => "01",
        2 => "02",
        3 => "03",
        4 => "04",
        5 => "05",
        6 => "06",
        7 => "07",
        8 => "08",
        9 => "09",
        10 => "0a",
        11 => "0b",
        12 => "0c",
        13 => "0d",
        14 => "0e",
        15 => "0f",
        16 => "10",
        17 => "11",
        18 => "12",
        19 => "13",
        20 => "14",
        21 => "15",
        22 => "16",
        23 => "17",
        24 => "18",
        25 => "19",
        26 => "1a",
        27 => "1b",
        28 => "1c",
        29 => "1d",
        30 => "1e",
        _ => "1f",
    };
    proof {
        reveal_strlit("00");
        reveal_strlit("01");
        reveal_strlit("02");
        reveal_strlit("03");
        reveal_strlit("04");
        reveal_strlit("05");
        reveal_strlit("06");
        reveal_strlit("07");
        reveal_strlit("08");
        reveal_strlit("09");
        reveal_strlit("0a");
        reveal_strlit("0b");
        reveal_strlit("0c");
        reveal_strlit("0d");
        reveal_strlit("0e");
        reveal_strlit("0f");
        reveal_strlit("10");
        reveal_strlit("11");
        reveal_strlit("12");
        reveal_strlit("13");
        reveal_strlit("14");
        reveal_strlit("15");
        reveal_strlit("16");
        reveal_strlit("17");
        reveal_strlit("18");
        reveal_strlit("19");
        reveal_strlit("1a");
        reveal_strlit("1b");
        reveal_strlit("1c");
        reveal_strlit("1d");
        reveal_strlit("1e");
        reveal_strlit("1f");
        assert(s@ =~= seq![hex_digit((value as nat) / 16), hex_digit((value as nat) % 16)]);
    }
    s
}

/// Append the text as a JSON string literal, quotes included.
fn push_quoted(out: &mut String, s: &str)
    ensures
        final(out)@ == old(out)@ + quoted(s@),
{
    out.append("\"");
    let len = s.unicode_len();
    let ghost opened = out@;
    let mut i: usize = 0;
    while i < len
        invariant
            i <= len,
            len == s@.len(),
            out@ == opened + escape_text(s@.take(i as int)),
        decreases len - i,
    {
        let c = s.get_char(i);
        if c == '"' {
            out.append("\\\"");
        } else if c == '\\' {
            out.append("\\\\");
        } else if c == '\n' {
            out.append("\\n");
        } else if c == '\r' {
            out.append("\\r");
        } else if c == '\t' {
            out.append("\\t");
        } else if c == '\u{8}' {
            out.append("\\b");
        } else if c == '\u{c}' {
            out.append("\\f");
        } else if (c as u32) < 32 {
            out.append("\\u00");
            out.append(low_hex_str(c as u32));
        } else {
            let piece = s.substring_char(i, i + 1);
            proof {
                assert(piece@ =~= seq![s@[i as int]]);
            }
            out.append(piece);
        }
        i = i + 1;
        proof {
            reveal_strlit("\\\"");
            reveal_strlit("\\\\");
            reveal_strlit("\\n");
            reveal_strlit("\\r");
            reveal_strlit("\\t");
            reveal_strlit("\\b");
            reveal_strlit("\\f");
            reveal_strlit("\\u00");
            assert(s@.take(i as int) =~= s@.take(i - 1).push(s@[i - 1]));
            lemma_escape_text_snoc(s@.take(i - 1), s@[i - 1]);
            assert(out@ =~= opened + escape_text(s@.take(i as int)));
        }
    }
    out.append("\"");
    proof {
        reveal_strlit("\"");
        assert(s@.take(len as int) =~= s@);
        assert(out@ =~= old(out)@ + quoted(s@));
    }
}

/// Encode a client request as its one-line JSON form.
pub fn encode_from_client(packet: &FromClient) -> (line: String)
    ensures
        line@ == (match *packet {
            FromClient::Join { group_name } => join_json(group_name@),
            FromClient::Post { group_name, message } => post_json(group_name@, message@),
        }),
{
    match packet {
        FromClient::Join { group_name } => {
            let mut line = String::from_str("{\"Join\":{\"group_name\":");
            push_quoted(&mut line, group_name.as_str());
            line.append("}}");
            proof {
                assert(line@ =~= join_json(group_name@));
            }
            line
        },
        FromClient::Post { group_name, message } => {
            let mut line = String::from_str("{\"Post\":{\"group_name\":");
            push_quoted(&mut line, group_name.as_str());
            line.append(",\"message\":");
            push_quoted(&mut line, message.as_str());
            line.append("}}");
            proof {
                assert(line@ =~= post_json(group_name@, message@));
            }
            line
        },
    }
}

/// Encode a server packet as its one-line JSON form.
pub fn encode_from_server(packet: &FromServer) -> (line: String)
    ensures
        line@ == (match *packet {
            FromServer::Message { group_name, message } => message_json(group_name@, message@),
            FromServer::Error(message) => error_json(message@),
        }),
{
    match packet {
        FromServer::Message { group_name, message } => {
            let mut line = String::from_str("{\"Message\":{\"group_name\":");
            push_quoted(&mut line, group_name.as_str());
            line.append(",\"message\":");
            push_quoted(&mut line, message.as_str());
            line.append("}}");
            proof {
                assert(line@ =~= message_json(group_name@, message@));
            }
            line
        },
        FromServer::Error(message) => {
            let mut line = String::from_str("{\"Error\":");
            push_quoted(&mut line, message.as_str());
            line.append("}");
            proof {
                assert(line@ =~= error_json(message@));
            }
            line
        },
    }
}

} // verus!
