//! The remote-path token grammar. A token `hw<N>` or `hw<N>:<name>`
//! addresses the server; `:<path>` and any token without a colon are
//! local paths. The grammar is stated as spec functions and the parsers
//! are proved against them, including the round trip with rendering.

use vstd::prelude::*;
use vstd::string::*;
use crate::digits::{
    all_digits,
    canonical_digits,
    digit_val,
    digits_of,
    digits_val,
    is_digit_char,
    lemma_digits_of_val,
    lemma_val_digits_of,
};
use crate::errors::Error;
use crate::errors::ErrorKind;
use crate::paths::{rpat_text, CpArg, RemoteDestination, RemotePattern};

verus! {

/// The index of the first colon, or the length when there is none.
pub open spec fn colon_pos(s: Seq<char>) -> int
    decreases s.len(),
{
    if s.len() == 0 {
        0
    } else if s[0] == ':' {
        0
    } else {
        1 + colon_pos(s.skip(1))
    }
}

/// Whether the string holds a colon anywhere.
pub open spec fn contains_colon(s: Seq<char>) -> bool {
    exists|j: int| 0 <= j < s.len() && s[j] == ':'
}

proof fn lemma_colon_pos(s: Seq<char>)
    ensures
        0 <= colon_pos(s) <= s.len(),
        forall|j: int| 0 <= j < colon_pos(s) ==> s[j] != ':',
        colon_pos(s) < s.len() ==> s[colon_pos(s)] == ':',
    decreases s.len(),
{
    if s.len() == 0 {
    } else if s[0] == ':' {
    } else {
        lemma_colon_pos(s.skip(1));
        let cp = colon_pos(s);
        assert forall|j: int| 0 <= j < cp implies s[j] != ':' by {
            if j > 0 {
                assert(s.skip(1)[j - 1] == s[j]);
            }
        }
        if cp < s.len() {
            assert(s.skip(1)[cp - 1] == s[cp]);
        }
    }
}

/// Any index with no colon before it, and a colon (or the end) at it,
/// is the first colon position.
proof fn lemma_colon_pos_unique(s: Seq<char>, k: int)
    requires
        0 <= k <= s.len(),
        forall|j: int| 0 <= j < k ==> s[j] != ':',
        k < s.len() ==> s[k] == ':',
    ensures
        colon_pos(s) == k,
{
    lemma_colon_pos(s);
    let cp = colon_pos(s);
    if cp < k {
        assert(s[cp] != ':');
        assert(s[cp] == ':');
    }
    if k < cp {
        assert(s[k] != ':');
        assert(s[k] == ':');
    }
}

/// Parse `hw<digits>`, optionally followed by `:<name>`: the homework
/// number and the (possibly empty) name.
pub open spec fn hw_opt_file_parse(s: Seq<char>) -> Option<(nat, Seq<char>)> {
    if s.len() < 3 || s[0] != 'h' || s[1] != 'w' {
        None
    } else {
        let rest = s.skip(2);
        let k = colon_pos(rest);
        let ds = rest.take(k);
        if ds.len() == 0 || !all_digits(ds) {
            None
        } else if k < rest.len() {
            Some((digits_val(ds), rest.skip(k + 1)))
        } else {
            Some((digits_val(ds), Seq::<char>::empty()))
        }
    }
}

/// Parse `hw<digits>:<name>`: as above, but the colon is required.
pub open spec fn hw_file_parse(s: Seq<char>) -> Option<(nat, Seq<char>)> {
    if hw_opt_file_parse(s) is Some && contains_colon(s) {
        hw_opt_file_parse(s)
    } else {
        None
    }
}

/// Parse `hw<digits>` or `hw<digits>:`: a homework alone.
pub open spec fn hw_only_parse(s: Seq<char>) -> Option<nat> {
    match hw_opt_file_parse(s) {
        Some((hw, name)) => if name.len() == 0 {
            Some(hw)
        } else {
            None
        },
        None => None,
    }
}

/// Parse `:<path>` with a nonempty path: an explicitly local file.
pub open spec fn local_file_parse(s: Seq<char>) -> Option<Seq<char>> {
    if s.len() >= 2 && s[0] == ':' {
        Some(s.skip(1))
    } else {
        None
    }
}

/// The first colon at or after `start`, or the length when there is none.
fn colon_index(s: &str, start: usize) -> (k: usize)
    requires
        start <= s@.len(),
    ensures
        start <= k <= s@.len(),
        forall|j: int| start <= j < k ==> s@[j] != ':',
        k < s@.len() ==> s@[k as int] == ':',
{
    let n = s.unicode_len();
    let mut i: usize = start;
    while i < n
        invariant
            start <= i <= n,
            n == s@.len(),
            forall|j: int| start <= j < i ==> s@[j] != ':',
        decreases n - i,
    {
        if s.get_char(i) == ':' {
            return i;
        }
        i = i + 1;
    }
    i
}

/// Scan a token against the `hw<digits>[:<name>]` shape. `None` covers
/// both a shape mismatch and a homework number too large to hold.
fn hw_scan(token: &str) -> (r: Option<(usize, bool, String)>)
    ensures
        match r {
            Some(found) => {
                &&& hw_opt_file_parse(token@) == Some((found.0 as nat, found.2@))
                &&& found.1 == contains_colon(token@)
            },
            None => hw_opt_file_parse(token@) is None || (hw_opt_file_parse(token@) matches Some(p)
                && p.0 > usize::MAX),
        },
{
    let n = token.unicode_len();
    if n < 3 {
        return None;
    }
    if token.get_char(0) != 'h' || token.get_char(1) != 'w' {
        return None;
    }
    let ghost rest = token@.skip(2);
    let k = colon_index(token, 2);
    proof {
        assert forall|j: int| 0 <= j < k - 2 implies rest[j] != ':' by {
            assert(rest[j] == token@[j + 2]);
        }
        if k < n {
            assert(rest[k - 2] == token@[k as int]);
        }
        lemma_colon_pos_unique(rest, k - 2);
        assert(rest.take(k - 2) =~= token@.subrange(2, k as int));
    }
    if k == 2 {
        // empty digit run
        return None;
    }
    let mut i: usize = 2;
    let mut val: usize = 0;
    let mut overflowed = false;
    while i < k
        invariant
            2 < k <= n,
            2 <= i <= k,
            n == token@.len(),
            n >= 3,
            token@[0] == 'h',
            token@[1] == 'w',
            colon_pos(token@.skip(2)) == k - 2,
            token@.skip(2).take(k - 2) == token@.subrange(2, k as int),
            k < n ==> token@[k as int] == ':',
            forall|j: int| 2 <= j < i ==> is_digit_char(#[trigger] token@[j]),
            !overflowed ==> val as nat == digits_val(token@.subrange(2, i as int)),
            overflowed ==> digits_val(token@.subrange(2, i as int)) > usize::MAX,
        decreases k - i,
    {
        let c = token.get_char(i);
        if c < '0' || c > '9' {
            proof {
                assert(!is_digit_char(token@[i as int]));
                assert(token@.subrange(2, k as int)[i - 2] == token@[i as int]);
                assert(!all_digits(token@.subrange(2, k as int)));
            }
            return None;
        }
        let d = (c as u32 - '0' as u32) as usize;
        let ghost prefix = token@.subrange(2, i as int);
        let ghost extended = token@.subrange(2, i + 1);
        proof {
            assert(extended.drop_last() =~= prefix);
            assert(extended.last() == token@[i as int]);
            assert(d as nat == digit_val(token@[i as int]));
            assert(digits_val(extended) == digits_val(prefix) * 10 + d);
        }
        if overflowed {
            proof {
                assert(digits_val(extended) > usize::MAX);
            }
        } else if val > (usize::MAX - d) / 10 {
            proof {
                vstd::arithmetic::div_mod::lemma_fundamental_div_mod(
                    (usize::MAX - d) as int,
                    10,
                );
                assert(val * 10 + d > usize::MAX);
            }
            overflowed = true;
        } else {
            proof {
                vstd::arithmetic::div_mod::lemma_fundamental_div_mod(
                    (usize::MAX - d) as int,
                    10,
                );
                assert(val * 10 + d <= usize::MAX);
            }
            val = val * 10 + d;
        }
        i = i + 1;
    }
    let ghost ds = token@.subrange(2, k as int);
    proof {
        assert(all_digits(ds));
        assert(ds.len() > 0);
    }
    if overflowed {
        return None;
    }
    if k < n {
        proof {
            assert(rest.skip(k - 2 + 1) =~= token@.subrange(k + 1, n as int));
            assert(contains_colon(token@));
        }
        let name_str = token.substring_char(k + 1, n);
        Some((val, true, String::from_str(name_str)))
    } else {
        proof {
            if contains_colon(token@) {
                let j = choose|j: int| 0 <= j < token@.len() && token@[j] == ':';
                assert(j >= 2);
                assert(token@.subrange(2, k as int)[j - 2] == token@[j]);
                assert(is_digit_char(token@[j]));
            }
        }
        Some((val, false, String::new()))
    }
}

/// Parse a homework spec, `hw<N>` or `hw<N>:`.
pub fn parse_hw(token: &str) -> (r: Result<usize, Error>)
    ensures
        match r {
            Ok(hw) => hw_only_parse(token@) == Some(hw as nat),
            Err(e) => {
                &&& (hw_only_parse(token@) is None || hw_only_parse(token@)->0 > usize::MAX)
                &&& (e.kind matches ErrorKind::SyntaxError(c, t) && c@ == "homework spec"@ && t@
                    == token@)
            },
        },
{
    match hw_scan(token) {
        Some((hw, _, name)) => {
            if name.as_str().is_empty() {
                Ok(hw)
            } else {
                Err(Error::syntax("homework spec", token))
            }
        },
        None => Err(Error::syntax("homework spec", token)),
    }
}

/// Parse a homework-or-file spec, `hw<N>` or `hw<N>:<name>`.
pub fn parse_hw_opt_file(token: &str) -> (r: Result<RemotePattern, Error>)
    ensures
        match r {
            Ok(rpat) => hw_opt_file_parse(token@) == Some((rpat.hw as nat, rpat.name@)),
            Err(e) => {
                &&& (hw_opt_file_parse(token@) is None || (hw_opt_file_parse(token@)->0).0
                    > usize::MAX)
                &&& (e.kind matches ErrorKind::SyntaxError(c, t) && c@ == "homework or file spec"@
                    && t@ == token@)
            },
        },
{
    match hw_scan(token) {
        Some((hw, _, name)) => Ok(RemotePattern::hw_name(hw, name)),
        None => Err(Error::syntax("homework or file spec", token)),
    }
}

/// Parse a remote file spec, `hw<N>:<name>` (the colon is required).
pub fn parse_hw_file(token: &str) -> (r: Result<RemotePattern, Error>)
    ensures
        match r {
            Ok(rpat) => hw_file_parse(token@) == Some((rpat.hw as nat, rpat.name@)),
            Err(e) => {
                &&& (hw_file_parse(token@) is None || (hw_file_parse(token@)->0).0 > usize::MAX)
                &&& (e.kind matches ErrorKind::SyntaxError(c, t) && c@
                    == "remote file or homework spec"@ && t@ == token@)
            },
        },
{
    match hw_scan(token) {
        Some((hw, true, name)) => Ok(RemotePattern::hw_name(hw, name)),
        Some((_, false, _)) => Err(Error::syntax("remote file or homework spec", token)),
        None => Err(Error::syntax("remote file or homework spec", token)),
    }
}

/// Parse a move destination: a homework alone, a remote file spec, or a
/// bare name that inherits its homework from the source.
pub fn parse_remote_dest(token: &str) -> (r: Result<RemoteDestination, Error>)
    ensures
        match r {
            Ok(d) => {
                &&& token@.len() > 0
                &&& if hw_only_parse(token@) is Some && hw_only_parse(token@)->0 <= usize::MAX {
                    d.hw == Some((hw_only_parse(token@)->0) as usize) && d.name@.len() == 0
                } else if contains_colon(token@) {
                    hw_file_parse(token@) matches Some(p) && d.hw == Some(p.0 as usize) && d.name@
                        == p.1
                } else {
                    d.hw is None && d.name@ == token@
                }
            },
            Err(e) => {
                ||| (token@.len() == 0 && (e.kind matches ErrorKind::SyntaxError(c, t) && c@
                    == "remote file or assignment name"@ && t@ == token@))
                ||| (token@.len() > 0 && !(hw_only_parse(token@) is Some && hw_only_parse(
                    token@,
                )->0 <= usize::MAX) && contains_colon(token@) && (hw_file_parse(token@) is None
                    || (hw_file_parse(token@)->0).0 > usize::MAX) && (e.kind
                    matches ErrorKind::SyntaxError(c, t) && c@ == "remote file or homework spec"@
                    && t@ == token@))
            },
        },
{
    let n = token.unicode_len();
    if n == 0 {
        return Err(Error::syntax("remote file or assignment name", token));
    }
    match parse_hw(token) {
        Ok(hw) => Ok(RemoteDestination::just_hw(hw)),
        Err(_) => {
            let k = colon_index(token, 0);
            if k < n {
                match parse_hw_file(token) {
                    Ok(rpat) => Ok(rpat.into_destination()),
                    Err(e) => Err(e),
                }
            } else {
                proof {
                    if contains_colon(token@) {
                        let j = choose|j: int| 0 <= j < token@.len() && token@[j] == ':';
                        assert(token@[j] != ':');
                    }
                }
                Ok(RemoteDestination::just_name(String::from_str(token)))
            }
        },
    }
}

/// Parse one copy argument: `:<path>` is the local file `<path>`, any
/// other token with a colon is a remote spec, and a token without a
/// colon is a local path.
pub fn parse_cp_arg(token: &str) -> (r: Result<CpArg, Error>)
    ensures
        match r {
            Ok(arg) => {
                &&& token@.len() > 0
                &&& if local_file_parse(token@) is Some {
                    arg matches CpArg::Local(path) && path@ == local_file_parse(token@)->0
                } else if contains_colon(token@) {
                    arg matches CpArg::Remote(rpat) && (hw_file_parse(token@) == Some(
                        (rpat.hw as nat, rpat.name@),
                    ))
                } else {
                    arg matches CpArg::Local(path) && path@ == token@
                }
            },
            Err(e) => {
                ||| (token@.len() == 0 && (e.kind matches ErrorKind::SyntaxError(c, t) && c@
                    == "file name"@ && t@ == token@))
                ||| (token@.len() > 0 && local_file_parse(token@) is None && contains_colon(token@)
                    && (hw_file_parse(token@) is None || (hw_file_parse(token@)->0).0 > usize::MAX)
                    && (e.kind matches ErrorKind::SyntaxError(c, t) && c@
                    == "remote file or homework spec"@ && t@ == token@))
            },
        },
{
    let n = token.unicode_len();
    if n == 0 {
        return Err(Error::syntax("file name", token));
    }
    if n >= 2 && token.get_char(0) == ':' {
        let path = token.substring_char(1, n);
        proof {
            assert(token@.skip(1) =~= token@.subrange(1, n as int));
        }
        return Ok(CpArg::Local(String::from_str(path)));
    }
    let k = colon_index(token, 0);
    if k < n {
        match parse_hw_file(token) {
            Ok(rpat) => Ok(CpArg::Remote(rpat)),
            Err(e) => Err(e),
        }
    } else {
        proof {
            if contains_colon(token@) {
                let j = choose|j: int| 0 <= j < token@.len() && token@[j] == ':';
                assert(token@[j] != ':');
            }
        }
        Ok(CpArg::Local(String::from_str(token)))
    }
}

/// Law: a well-formed `hw<N>:<name>` string parses to `(N, name)`, and
/// rendering that parse gives the string back. A whole-homework token
/// `hw<N>` normalizes to the colon form `hw<N>:`, so the law is stated
/// on strings that carry the colon, with the homework digits written
/// canonically (no leading zero) and small enough to hold.
pub proof fn lemma_parse_display_round_trip(ds: Seq<char>, name: Seq<char>)
    requires
        canonical_digits(ds),
        digits_val(ds) <= usize::MAX,
    ensures
        hw_opt_file_parse(seq!['h', 'w'] + ds + seq![':'] + name) == Some((digits_val(ds), name)),
        rpat_text(digits_val(ds), name) == seq!['h', 'w'] + ds + seq![':'] + name,
{
    let s = seq!['h', 'w'] + ds + seq![':'] + name;
    assert(s.len() == 3 + ds.len() + name.len());
    assert(s[0] == 'h');
    assert(s[1] == 'w');
    let rest = s.skip(2);
    assert(rest =~= ds + seq![':'] + name);
    assert forall|j: int| 0 <= j < ds.len() implies rest[j] != ':' by {
        assert(rest[j] == ds[j]);
        assert(is_digit_char(ds[j]));
    }
    assert(rest[ds.len() as int] == ':');
    lemma_colon_pos_unique(rest, ds.len() as int);
    assert(rest.take(ds.len() as int) =~= ds);
    assert(rest.skip(ds.len() as int + 1) =~= name);
    lemma_val_digits_of(ds);
    assert(rpat_text(digits_val(ds), name) =~= s);
}

/// Law: rendering any pattern and parsing the rendering gives the
/// pattern back, for every homework number that fits and every name.
pub proof fn lemma_display_parse_round_trip(hw: nat, name: Seq<char>)
    requires
        hw <= usize::MAX,
    ensures
        hw_opt_file_parse(rpat_text(hw, name)) == Some((hw, name)),
{
    lemma_digits_of_val(hw);
    lemma_parse_display_round_trip(digits_of(hw), name);
    assert(rpat_text(hw, name) == seq!['h', 'w'] + digits_of(hw) + seq![':'] + name);
}

} // verus!
