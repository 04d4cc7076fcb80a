//! Credentials: the username and API-key cookie pair, the one-line file
//! format they are stored in, and the shape check an entered API key
//! must pass before it is sent anywhere.

use vstd::prelude::*;
use vstd::string::*;
use crate::config::Config;
use crate::errors::{ApiKeyExplanation, Error, ErrorKind};
use crate::text::{char_pos, find_char, lemma_char_pos};

verus! {

/// A username with its authentication cookie.
#[derive(Debug, PartialEq, Eq)]
pub struct Credentials {
    pub username: String,
    pub cookie_key: String,
    pub cookie_value: String,
}

impl Clone for Credentials {
    fn clone(&self) -> (r: Self)
        ensures
            r == *self,
    {
        Credentials {
            username: self.username.clone(),
            cookie_key: self.cookie_key.clone(),
            cookie_value: self.cookie_value.clone(),
        }
    }
}

/// What one line of the cookie file means: the username up to the first
/// colon, the cookie key up to the first equals sign, the value after
/// it. A line without both separators in that order means nothing.
pub open spec fn cookie_line_parse(s: Seq<char>) -> Option<(Seq<char>, Seq<char>, Seq<char>)> {
    let colon = char_pos(s, ':');
    let equals = char_pos(s, '=');
    if colon >= s.len() || equals >= s.len() || colon > equals {
        None
    } else {
        Some((s.take(colon), s.subrange(colon + 1, equals), s.skip(equals + 1)))
    }
}

/// Split one cookie-file line into username, cookie key and value.
pub fn parse_cookie_file(contents: &str) -> (r: Option<(String, String, String)>)
    ensures
        match r {
            Some(parts) => cookie_line_parse(contents@) == Some(
                (parts.0@, parts.1@, parts.2@),
            ),
            None => cookie_line_parse(contents@) is None,
        },
{
    let n = contents.unicode_len();
    let colon = find_char(contents, ':');
    let equals = find_char(contents, '=');
    if colon >= n || equals >= n || colon > equals {
        return None;
    }
    proof {
        lemma_char_pos(contents@, ':');
        lemma_char_pos(contents@, '=');
        assert(contents@[colon as int] == ':');
        assert(contents@[equals as int] == '=');
        assert(colon != equals);
    }
    let username = contents.substring_char(0, colon);
    let key = contents.substring_char(colon + 1, equals);
    let value = contents.substring_char(equals + 1, n);
    proof {
        assert(username@ =~= contents@.take(colon as int));
        assert(value@ =~= contents@.skip(equals + 1));
    }
    Some((String::from_str(username), String::from_str(key), String::from_str(value)))
}

impl Credentials {
    pub fn new(username: String, cookie_key: String, cookie_value: String) -> (r: Self)
        ensures
            r.username == username,
            r.cookie_key == cookie_key,
            r.cookie_value == cookie_value,
    {
        Credentials { username, cookie_key, cookie_value }
    }

    pub fn username(&self) -> (r: &String)
        ensures
            r == &self.username,
    {
        &self.username
    }

    /// The cookie header's text: `key=value`.
    pub fn cookie_string(&self) -> (r: String)
        ensures
            r@ == self.cookie_key@ + seq!['='] + self.cookie_value@,
    {
        let mut s = self.cookie_key.clone();
        s.append("=");
        s.append(self.cookie_value.as_str());
        proof {
            reveal_strlit("=");
            assert(s@ =~= self.cookie_key@ + seq!['='] + self.cookie_value@);
        }
        s
    }

    /// The cookie file's one line: `username:key=value`.
    pub fn to_line(&self) -> (r: String)
        ensures
            r@ == self.username@ + seq![':'] + self.cookie_key@ + seq!['='] + self.cookie_value@,
    {
        let mut s = self.username.clone();
        s.append(":");
        s.append(self.cookie_key.as_str());
        s.append("=");
        s.append(self.cookie_value.as_str());
        proof {
            reveal_strlit(":");
            reveal_strlit("=");
            assert(s@ =~= self.username@ + seq![':'] + self.cookie_key@ + seq!['=']
                + self.cookie_value@);
        }
        s
    }
}

/// Law: writing credentials as a line and parsing the line gives the
/// parts back, for every username free of both separators and every
/// cookie key free of the equals sign (the value may hold anything).
pub proof fn lemma_cookie_line_round_trip(username: Seq<char>, key: Seq<char>, value: Seq<char>)
    requires
        forall|j: int| 0 <= j < username.len() ==> username[j] != ':' && #[trigger] username[j]
            != '=',
        forall|j: int| 0 <= j < key.len() ==> #[trigger] key[j] != '=',
    ensures
        cookie_line_parse(username + seq![':'] + key + seq!['='] + value) == Some(
            (username, key, value),
        ),
{
    let s = username + seq![':'] + key + seq!['='] + value;
    let colon = username.len() as int;
    let equals = username.len() + 1 + key.len();
    assert(s[colon] == ':');
    assert(s[equals as int] == '=');
    assert forall|j: int| 0 <= j < colon implies s[j] != ':' by {
        assert(s[j] == username[j]);
    }
    crate::text::lemma_char_pos_unique(s, ':', colon);
    assert forall|j: int| 0 <= j < equals implies s[j] != '=' by {
        if j < colon {
            assert(s[j] == username[j]);
        } else if j > colon {
            assert(s[j] == key[j - colon - 1]);
        }
    }
    crate::text::lemma_char_pos_unique(s, '=', equals as int);
    assert(s.take(colon) =~= username);
    assert(s.subrange(colon + 1, equals as int) =~= key);
    assert(s.skip(equals as int + 1) =~= value);
}

/// An ASCII whitespace character, as trimmed off an entered API key.
pub open spec fn is_ascii_space(c: char) -> bool {
    c == ' ' || c == '\t' || c == '\n' || c == '\u{c}' || c == '\r'
}

/// Where the leading whitespace of a string ends.
pub open spec fn ws_start(s: Seq<char>) -> int
    decreases s.len(),
{
    if s.len() == 0 {
        0
    } else if !is_ascii_space(s[0]) {
        0
    } else {
        1 + ws_start(s.skip(1))
    }
}

/// Where the trailing whitespace of a string starts.
pub open spec fn ws_end(s: Seq<char>) -> int
    decreases s.len(),
{
    if s.len() == 0 {
        0
    } else if !is_ascii_space(s.last()) {
        s.len() as int
    } else {
        ws_end(s.drop_last())
    }
}

/// A string with its surrounding ASCII whitespace trimmed off.
pub open spec fn trimmed(s: Seq<char>) -> Seq<char> {
    if ws_start(s) >= ws_end(s) {
        Seq::<char>::empty()
    } else {
        s.subrange(ws_start(s), ws_end(s))
    }
}

proof fn lemma_ws_start(s: Seq<char>)
    ensures
        0 <= ws_start(s) <= s.len(),
        forall|j: int| 0 <= j < ws_start(s) ==> is_ascii_space(#[trigger] s[j]),
        ws_start(s) < s.len() ==> !is_ascii_space(s[ws_start(s)]),
    decreases s.len(),
{
    if s.len() == 0 {
    } else if !is_ascii_space(s[0]) {
    } else {
        lemma_ws_start(s.skip(1));
        let w = ws_start(s);
        assert forall|j: int| 0 <= j < w implies is_ascii_space(#[trigger] s[j]) by {
            if j > 0 {
                assert(s.skip(1)[j - 1] == s[j]);
            }
        }
        if w < s.len() {
            assert(s.skip(1)[w - 1] == s[w]);
        }
    }
}

proof fn lemma_ws_start_unique(s: Seq<char>, k: int)
    requires
        0 <= k <= s.len(),
        forall|j: int| 0 <= j < k ==> is_ascii_space(#[trigger] s[j]),
        k < s.len() ==> !is_ascii_space(s[k]),
    ensures
        ws_start(s) == k,
{
    lemma_ws_start(s);
    let w = ws_start(s);
    if w < k {
        assert(is_ascii_space(s[w]));
        assert(!is_ascii_space(s[w]));
    }
    if k < w {
        assert(is_ascii_space(s[k]));
        assert(!is_ascii_space(s[k]));
    }
}

proof fn lemma_ws_end(s: Seq<char>)
    ensures
        0 <= ws_end(s) <= s.len(),
        forall|j: int| ws_end(s) <= j < s.len() ==> is_ascii_space(#[trigger] s[j]),
        ws_end(s) > 0 ==> !is_ascii_space(s[ws_end(s) - 1]),
    decreases s.len(),
{
    if s.len() == 0 {
    } else if !is_ascii_space(s.last()) {
    } else {
        lemma_ws_end(s.drop_last());
        let w = ws_end(s);
        assert forall|j: int| w <= j < s.len() implies is_ascii_space(#[trigger] s[j]) by {
            if j < s.len() - 1 {
                assert(s.drop_last()[j] == s[j]);
            }
        }
        if w > 0 {
            assert(s.drop_last()[w - 1] == s[w - 1]);
        }
    }
}

proof fn lemma_ws_end_unique(s: Seq<char>, k: int)
    requires
        0 <= k <= s.len(),
        forall|j: int| k <= j < s.len() ==> is_ascii_space(#[trigger] s[j]),
        k > 0 ==> !is_ascii_space(s[k - 1]),
    ensures
        ws_end(s) == k,
{
    lemma_ws_end(s);
    let w = ws_end(s);
    if w < k {
        assert(is_ascii_space(s[k - 1]));
        assert(!is_ascii_space(s[k - 1]));
    }
    if k < w {
        assert(is_ascii_space(s[w - 1]));
        assert(!is_ascii_space(s[w - 1]));
    }
}

/// Decide whether a character is ASCII whitespace.
fn is_space_char(c: char) -> (r: bool)
    ensures
        r == is_ascii_space(c),
{
    c == ' ' || c == '\t' || c == '\n' || c == '\u{c}' || c == '\r'
}

/// Where the leading whitespace ends.
fn trim_start_index(s: &str) -> (k: usize)
    ensures
        k == ws_start(s@),
{
    let n = s.unicode_len();
    let mut i: usize = 0;
    while i < n
        invariant
            0 <= i <= n,
            n == s@.len(),
            forall|j: int| 0 <= j < i ==> is_ascii_space(#[trigger] s@[j]),
        decreases n - i,
    {
        if !is_space_char(s.get_char(i)) {
            proof {
                lemma_ws_start_unique(s@, i as int);
            }
            return i;
        }
        i = i + 1;
    }
    proof {
        lemma_ws_start_unique(s@, n as int);
    }
    n
}

/// Where the trailing whitespace starts.
fn trim_end_index(s: &str) -> (k: usize)
    ensures
        k == ws_end(s@),
{
    let n = s.unicode_len();
    let mut i: usize = n;
    while i > 0
        invariant
            0 <= i <= n,
            n == s@.len(),
            forall|j: int| i <= j < n ==> is_ascii_space(#[trigger] s@[j]),
        decreases i,
    {
        if !is_space_char(s.get_char(i - 1)) {
            proof {
                lemma_ws_end_unique(s@, i as int);
            }
            return i;
        }
        i = i - 1;
    }
    proof {
        lemma_ws_end_unique(s@, 0);
    }
    0
}

/// A hexadecimal digit character.
pub open spec fn is_hex_digit_char(c: char) -> bool {
    ||| ('0' <= c && c <= '9')
    ||| ('a' <= c && c <= 'f')
    ||| ('A' <= c && c <= 'F')
}

/// The lower-case form of a hexadecimal digit character.
pub open spec fn lower_hex_char(c: char) -> char {
    if c == 'A' {
        'a'
    } else if c == 'B' {
        'b'
    } else if c == 'C' {
        'c'
    } else if c == 'D' {
        'd'
    } else if c == 'E' {
        'e'
    } else if c == 'F' {
        'f'
    } else {
        c
    }
}

/// Append the lower-cased character at index `i` of a hex string.
fn append_lower_hex(out: &mut String, t: &str, i: usize)
    requires
        i < t@.len(),
        t@.len() <= usize::MAX,
        is_hex_digit_char(t@[i as int]),
    ensures
        final(out)@ == old(out)@.push(lower_hex_char(t@[i as int])),
{
    let c = t.get_char(i);
    proof {
        reveal_strlit("a");
        reveal_strlit("b");
        reveal_strlit("c");
        reveal_strlit("d");
        reveal_strlit("e");
        reveal_strlit("f");
    }
    if c == 'A' {
        out.append("a");
    } else if c == 'B' {
        out.append("b");
    } else if c == 'C' {
        out.append("c");
    } else if c == 'D' {
        out.append("d");
    } else if c == 'E' {
        out.append("e");
    } else if c == 'F' {
        out.append("f");
    } else {
        let sub = t.substring_char(i, i + 1);
        out.append(sub);
        proof {
            assert(sub@ =~= seq![t@[i as int]]);
        }
    }
    proof {
        assert(final(out)@ =~= old(out)@.push(lower_hex_char(t@[i as int])));
    }
}

/// The number of characters an API key has.
pub const KEY_LEN: usize = 40;

/// Check the shape of an entered API key: after trimming surrounding
/// whitespace it must be exactly `KEY_LEN` hexadecimal digits, and it is
/// normalized to lower case. Every defect is collected and reported as
/// the not-an-api-key error, with the offending key attached when the
/// configuration is verbose.
pub fn check_api_key(api_key: &str, config: &Config) -> (r: Result<String, Error>)
    ensures
        r is Ok <==> (api_key@.len() > 0 && trimmed(api_key@).len() == KEY_LEN && (forall|i: int|
            0 <= i < trimmed(api_key@).len() ==> is_hex_digit_char(#[trigger] trimmed(api_key@)[i]))),
        r matches Ok(s) ==> s@ == trimmed(api_key@).map(|i: int, c: char| lower_hex_char(c)),
        r matches Err(e) ==> (e.kind matches ErrorKind::NotAnApiKey(expl) && (expl.spec_bad_key()
            is Some <==> config.verbosity > 1)),
{
    let mut reasons = if config.get_verbosity() > 1 {
        ApiKeyExplanation::with_key(api_key)
    } else {
        ApiKeyExplanation::new()
    };
    if api_key.is_empty() {
        return reasons.final_straw(String::from_str("It's empty!"));
    }
    let start = trim_start_index(api_key);
    let end = trim_end_index(api_key);
    proof {
        lemma_ws_start(api_key@);
        lemma_ws_end(api_key@);
    }
    if start >= end {
        return reasons.final_straw(String::from_str("It's nothing but whitespace."));
    }
    let t = api_key.substring_char(start, end);
    proof {
        assert(t@ == trimmed(api_key@));
    }
    let tlen = end - start;
    if tlen < KEY_LEN {
        let mut msg = String::from_str("It's only ");
        let digits = crate::digits::usize_to_string(tlen);
        msg.append(digits.as_str());
        msg.append(" characters, but I expected 40.");
        reasons.add(msg);
    } else if tlen > KEY_LEN {
        let mut msg = String::from_str("It's ");
        let digits = crate::digits::usize_to_string(tlen);
        msg.append(digits.as_str());
        msg.append(" characters, but I expected only 40.");
        reasons.add(msg);
    }
    let ghost mismatch: int = if tlen == KEY_LEN {
        0
    } else {
        1
    };
    let mut result = String::new();
    let mut all_hex = true;
    let mut i: usize = 0;
    while i < tlen && all_hex
        invariant
            0 <= i <= tlen,
            tlen == t@.len(),
            t@ == trimmed(api_key@),
            reasons.spec_bad_key() is Some <==> config.verbosity > 1,
            all_hex ==> reasons.spec_reasons().len() == mismatch,
            !all_hex ==> reasons.spec_reasons().len() == mismatch + 1,
            all_hex ==> forall|j: int| 0 <= j < i ==> is_hex_digit_char(#[trigger] t@[j]),
            all_hex ==> result@ == t@.take(i as int).map(|j: int, c: char| lower_hex_char(c)),
            !all_hex ==> exists|j: int| 0 <= j < t@.len() && !is_hex_digit_char(#[trigger] t@[j]),
        decreases tlen - i,
    {
        let c = t.get_char(i);
        let hex = ('0' <= c && c <= '9') || ('a' <= c && c <= 'f') || ('A' <= c && c <= 'F');
        if !hex {
            let mut msg = String::from_str("It contains non-hexdigit characters.");
            reasons.add(msg);
            all_hex = false;
        } else {
            append_lower_hex(&mut result, t, i);
            proof {
                let f = |j: int, ch: char| lower_hex_char(ch);
                assert(t@.take(i + 1).map(f) =~= t@.take(i as int).map(f).push(
                    lower_hex_char(t@[i as int]),
                ));
            }
        }
        i = i + 1;
    }
    match reasons.into_result() {
        Ok(_) => {
            proof {
                assert(t@.take(tlen as int) =~= t@);
            }
            Ok(result)
        },
        Err(e) => Err(e),
    }
}

} // verus!
