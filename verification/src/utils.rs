//! Identifiers, timestamps and the name suggested for a new project.

use vstd::prelude::*;
use vstd::string::*;
use crate::text::{push_char, strip, stripped, to_chars, join2, Strip};

verus! {

/// The current time in UTC as an RFC 3339 text.
///
/// Trusted: calls `chrono::Utc::now` and `DateTime::to_rfc3339`. The result
/// depends on the clock, so nothing is stated of it.
#[verifier::external_body]
pub fn now_timestamp() -> (stamp: String) {
    chrono::Utc::now().to_rfc3339()
}

/// A new random identifier in hyphenated form.
///
/// Trusted: calls `uuid::Uuid::new_v4` and renders it. The result is
/// random, so nothing is stated of it.
#[verifier::external_body]
pub(crate) fn fresh_id() -> (id: String) {
    uuid::Uuid::new_v4().to_string()
}

/// Whether `c` is an ASCII letter or digit.
pub open spec fn is_alnum(c: char) -> bool {
    ('0' <= c && c <= '9') || ('a' <= c && c <= 'z') || ('A' <= c && c <= 'Z')
}

/// `c` with an ASCII capital turned into its small letter.
pub open spec fn lower(c: char) -> char {
    if 'A' <= c && c <= 'Z' {
        ((c as u8) + 32) as char
    } else {
        c
    }
}

/// The slug of `s`: letters and digits in lower case, each run of other
/// characters as one `-`.
pub open spec fn slug(s: Seq<char>) -> Seq<char>
    decreases s.len(),
{
    if s.len() == 0 {
        Seq::empty()
    } else {
        let head = slug(s.drop_last());
        let c = s.last();
        if is_alnum(c) {
            head.push(lower(c))
        } else if head.len() > 0 && head.last() == '-' {
            head
        } else {
            head.push('-')
        }
    }
}

/// The name suggested for a project that starts from `idea`: the slug of
/// the idea without `-` at its ends, prefixed where it is shorter than four
/// characters, and a fixed name where nothing is left.
pub open spec fn suggested_name(idea: Seq<char>) -> Seq<char> {
    let core = stripped(slug(idea), Strip::Dash);
    if core.len() == 0 {
        "celadon-project"@
    } else if core.len() < 4 {
        "celadon-"@ + core
    } else {
        core
    }
}

fn to_lower(c: char) -> (r: char)
    ensures
        r == lower(c),
{
    if 'A' <= c && c <= 'Z' {
        ((c as u8) + 32) as char
    } else {
        c
    }
}

/// Suggests a project name for `idea`.
pub fn suggest_project_name(idea: &str) -> (name: String)
    ensures
        name@ == suggested_name(idea@),
{
    let chars = to_chars(idea);
    let mut normalized = String::new();
    let mut last_dash = false;
    let mut i: usize = 0;
    while i < chars.len()
        invariant
            i <= chars.len(),
            normalized@ == slug(chars@.take(i as int)),
            last_dash == (normalized@.len() > 0 && normalized@.last() == '-'),
        decreases chars.len() - i,
    {
        let c: char = chars[i];
        assert(chars@.take(i as int + 1).drop_last() =~= chars@.take(i as int));
        if ('0' <= c && c <= '9') || ('a' <= c && c <= 'z') || ('A' <= c && c <= 'Z') {
            push_char(&mut normalized, to_lower(c));
            last_dash = false;
        } else if !last_dash {
            push_char(&mut normalized, '-');
            last_dash = true;
        }
        i += 1;
    }
    assert(chars@.take(chars.len() as int) =~= chars@);
    let core = strip(normalized.as_str(), Strip::Dash);
    let n: usize = core.as_str().unicode_len();
    if n == 0 {
        String::from_str("celadon-project")
    } else if n < 4 {
        join2("celadon-", core.as_str())
    } else {
        core
    }
}

} // verus!
