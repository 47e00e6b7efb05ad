//! Parsing the client's command lines: `join GROUP` and `post GROUP MESSAGE...`.
//!
//! A command line is split into whitespace-separated tokens; the first token
//! picks the request, the second names the group, and for a post everything
//! after the group (less leading whitespace) is the message.

use crate::protocol::FromClient;
use std::sync::Arc;
use vstd::prelude::*;

verus! {

/// Whether a character counts as whitespace, exactly as the standard library
/// classifies it.
pub uninterp spec fn whitespace(c: char) -> bool;

/// Relies on char::is_whitespace: whether a character is whitespace depends
/// on the character alone.
#[verifier::external_body]
fn is_whitespace_char(c: char) -> (b: bool)
    ensures
        b == whitespace(c),
{
    c.is_whitespace()
}

/// The length of the longest prefix whose characters are all whitespace
/// (`space` true) or all non-whitespace (`space` false).
pub open spec fn run_len(s: Seq<char>, space: bool) -> nat
    decreases s.len(),
{
    if s.len() == 0 || whitespace(s[0]) != space {
        0
    } else {
        (1 + run_len(s.skip(1), space)) as nat
    }
}

/// The text with its leading whitespace removed.
pub open spec fn trim_start_text(s: Seq<char>) -> Seq<char> {
    s.skip(run_len(s, true) as int)
}

/// The first whitespace-separated token: the run of non-whitespace characters
/// that follows the leading whitespace. Empty when the text is all whitespace.
pub open spec fn first_token(s: Seq<char>) -> Seq<char> {
    trim_start_text(s).take(run_len(trim_start_text(s), false) as int)
}

/// Everything after the first token, whitespace included.
pub open spec fn after_token(s: Seq<char>) -> Seq<char> {
    trim_start_text(s).skip(run_len(trim_start_text(s), false) as int)
}

/// A scan that saw `i` characters of one kind and then stopped has found the
/// run's length.
proof fn lemma_run_len_from_scan(s: Seq<char>, space: bool, i: int)
    requires
        0 <= i <= s.len(),
        forall|j: int| 0 <= j < i ==> whitespace(#[trigger] s[j]) == space,
        i < s.len() ==> whitespace(s[i]) != space,
    ensures
        run_len(s, space) == i,
    decreases i,
{
    if i > 0 {
        lemma_run_len_from_scan(s.skip(1), space, i - 1);
    }
}

/// Remove leading whitespace.
pub fn trim_start<'a>(s: &'a str) -> (r: &'a str)
    ensures
        r@ == trim_start_text(s@),
{
    let len = s.unicode_len();
    let mut i: usize = 0;
    loop
        invariant
            i <= len,
            len == s@.len(),
            forall|j: int| 0 <= j < i ==> whitespace(#[trigger] s@[j]),
        ensures
            i <= len,
            forall|j: int| 0 <= j < i ==> whitespace(#[trigger] s@[j]),
            i < len ==> !whitespace(s@[i as int]),
        decreases len - i,
    {
        if i == len {
            break;
        }
        if !is_whitespace_char(s.get_char(i)) {
            break;
        }
        i = i + 1;
    }
    proof {
        lemma_run_len_from_scan(s@, true, i as int);
    }
    s.substring_char(i, len)
}

/// Split off the first whitespace-separated token: return the token and the
/// rest of the line (which keeps the whitespace that ended the token), or
/// `None` if the line holds no token.
pub fn get_next_token<'a>(input: &'a str) -> (r: Option<(&'a str, &'a str)>)
    ensures
        match r {
            None => trim_start_text(input@).len() == 0,
            Some((token, rest)) => {
                &&& token@ == first_token(input@)
                &&& token@.len() > 0
                &&& rest@ == after_token(input@)
            },
        },
{
    let len = input.unicode_len();
    let mut i: usize = 0;
    loop
        invariant
            i <= len,
            len == input@.len(),
            forall|j: int| 0 <= j < i ==> whitespace(#[trigger] input@[j]),
        ensures
            i <= len,
            forall|j: int| 0 <= j < i ==> whitespace(#[trigger] input@[j]),
            i < len ==> !whitespace(input@[i as int]),
        decreases len - i,
    {
        if i == len {
            break;
        }
        if !is_whitespace_char(input.get_char(i)) {
            break;
        }
        i = i + 1;
    }
    proof {
        lemma_run_len_from_scan(input@, true, i as int);
    }
    if i == len {
        return None;
    }
    let mut j: usize = i;
    loop
        invariant
            i <= j <= len,
            len == input@.len(),
            forall|k: int| i <= k < j ==> !whitespace(#[trigger] input@[k]),
        ensures
            i <= j <= len,
            forall|k: int| i <= k < j ==> !whitespace(#[trigger] input@[k]),
            j < len ==> whitespace(input@[j as int]),
        decreases len - j,
    {
        if j == len {
            break;
        }
        if is_whitespace_char(input.get_char(j)) {
            break;
        }
        j = j + 1;
    }
    proof {
        let skipped = trim_start_text(input@);
        assert forall|k: int| 0 <= k < j - i implies whitespace(#[trigger] skipped[k]) == false by {
            assert(skipped[k] == input@[i + k]);
        }
        if j < len {
            assert(skipped[j - i] == input@[j as int]);
        }
        lemma_run_len_from_scan(skipped, false, j - i);
    }
    let token = input.substring_char(i, j);
    let rest = input.substring_char(j, len);
    proof {
        assert(token@ =~= first_token(input@));
        assert(rest@ =~= after_token(input@));
    }
    Some((token, rest))
}

/// Character-for-character equality of two strings.
fn str_chars_eq(a: &str, b: &str) -> (r: bool)
    ensures
        r == (a@ == b@),
{
    let alen = a.unicode_len();
    let blen = b.unicode_len();
    if alen != blen {
        return false;
    }
    let mut i: usize = 0;
    while i < alen
        invariant
            i <= alen,
            alen == a@.len() == b@.len(),
            forall|j: int| 0 <= j < i ==> a@[j] == b@[j],
        decreases alen - i,
    {
        if a.get_char(i) != b.get_char(i) {
            return false;
        }
        i = i + 1;
    }
    proof {
        assert(a@ =~= b@);
    }
    true
}

/// Read one line of user input as a request: `join GROUP` asks to join a
/// group, `post GROUP MESSAGE...` posts everything after the group name (less
/// leading whitespace) to it, and anything else means nothing.
pub fn parse_command(line: &str) -> (r: Option<FromClient>)
    ensures
        match r {
            Some(request) => match request {
                FromClient::Post { group_name, message } => {
                    &&& first_token(line@) == "post"@
                    &&& trim_start_text(after_token(line@)).len() > 0
                    &&& group_name@ == first_token(after_token(line@))
                    &&& message@ == trim_start_text(after_token(after_token(line@)))
                },
                FromClient::Join { group_name } => {
                    &&& first_token(line@) == "join"@
                    &&& trim_start_text(after_token(line@)).len() > 0
                    &&& group_name@ == first_token(after_token(line@))
                    &&& trim_start_text(after_token(after_token(line@))).len() == 0
                },
            },
            None => {
                ||| trim_start_text(line@).len() == 0
                ||| (first_token(line@) != "post"@ && first_token(line@) != "join"@)
                ||| (first_token(line@) == "post"@ && trim_start_text(after_token(line@)).len()
                    == 0)
                ||| (first_token(line@) == "join"@ && (trim_start_text(after_token(line@)).len()
                    == 0 || trim_start_text(after_token(after_token(line@))).len() != 0))
            },
        },
{
    let parsed = get_next_token(line);
    match parsed {
        None => None,
        Some((command, rest)) => {
            if str_chars_eq(command, "post") {
                match get_next_token(rest) {
                    None => None,
                    Some((group, after_group)) => {
                        let message = trim_start(after_group).to_owned();
                        Some(
                            FromClient::Post {
                                group_name: Arc::new(group.to_owned()),
                                message: Arc::new(message),
                            },
                        )
                    },
                }
            } else if str_chars_eq(command, "join") {
                match get_next_token(rest) {
                    None => None,
                    Some((group, after_group)) => {
                        let tail = trim_start(after_group);
                        if !tail.is_empty() {
                            return None;
                        }
                        Some(FromClient::Join { group_name: Arc::new(group.to_owned()) })
                    },
                }
            } else {
                None
            }
        },
    }
}

} // verus!
