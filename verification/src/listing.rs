//! The file listing service's pure half: given the metadata list the
//! server returned, select the files a pattern names, demand one or at
//! least one of them, and keep the per-user table of submission URIs
//! that listing fetches go through.

use vstd::prelude::*;
use vstd::string::*;
use crate::errors::Error;
use crate::errors::ErrorKind;
use crate::glob::{glob, glob_compiles, glob_match, normalized_pattern};
use crate::messages::FileMeta;
use crate::paths::RemotePattern;

verus! {

/// Whether a file's name matches a pattern's text.
pub open spec fn file_matches(pattern: Seq<char>, f: FileMeta) -> bool {
    glob_match(pattern, f.name@)
}

/// The sub-listing a pattern selects: the files whose names match, in
/// listing order. An empty pattern selects every file.
pub open spec fn selected_files(files: Seq<FileMeta>, pattern: Seq<char>) -> Seq<FileMeta> {
    files.filter(|f: FileMeta| file_matches(normalized_pattern(pattern), f))
}

/// The files of a listing that a pattern selects. An empty pattern is
/// the whole-homework selection: it keeps every file.
pub fn matching_file_list(files: &Vec<FileMeta>, rpat: &RemotePattern) -> (r: Result<
    Vec<FileMeta>,
    Error,
>)
    ensures
        glob_compiles(normalized_pattern(rpat.name@)) ==> (r matches Ok(v) && v@ == selected_files(
            files@,
            rpat.name@,
        )),
        rpat.name@.len() == 0 ==> (r matches Ok(v) && v@ == files@),
        !glob_compiles(normalized_pattern(rpat.name@)) ==> (r matches Err(e) && e.kind
            matches ErrorKind::PatternError(p) && p@ == rpat.name@),
{
    let matcher = match glob(rpat.name.as_str()) {
        Ok(m) => m,
        Err(e) => {
            return Err(e);
        },
    };
    let mut result: Vec<FileMeta> = Vec::new();
    let mut i: usize = 0;
    proof {
        reveal(Seq::filter);
        assert(files@.take(0) =~= Seq::<FileMeta>::empty());
    }
    while i < files.len()
        invariant
            0 <= i <= files@.len(),
            matcher.spec_pattern() == normalized_pattern(rpat.name@),
            result@ == selected_files(files@.take(i as int), rpat.name@),
            rpat.name@.len() == 0 ==> result@ == files@.take(i as int),
        decreases files@.len() - i,
    {
        let ghost prefix = files@.take(i as int);
        let ghost extended = files@.take(i + 1);
        proof {
            reveal(Seq::filter);
            assert(extended.drop_last() =~= prefix);
            assert(extended.last() == files@[i as int]);
        }
        if matcher.is_match(files[i].name.as_str()) {
            result.push(files[i].clone());
            proof {
                reveal(Seq::filter);
                assert(selected_files(extended, rpat.name@) == selected_files(
                    prefix,
                    rpat.name@,
                ).push(files@[i as int]));
            }
        } else {
            proof {
                reveal(Seq::filter);
                assert(selected_files(extended, rpat.name@) == selected_files(prefix, rpat.name@));
            }
        }
        i = i + 1;
    }
    proof {
        assert(files@.take(files@.len() as int) =~= files@);
    }
    Ok(result)
}

/// The files a pattern selects, where the user expects at least one to
/// exist: an empty selection is the no-such-remote-file error.
pub fn nonempty_matching_file_list(files: &Vec<FileMeta>, rpat: &RemotePattern) -> (r: Result<
    Vec<FileMeta>,
    Error,
>)
    ensures
        glob_compiles(normalized_pattern(rpat.name@)) && selected_files(files@, rpat.name@).len()
            > 0 ==> (r matches Ok(v) && v@ == selected_files(files@, rpat.name@)),
        rpat.name@.len() == 0 && files@.len() > 0 ==> (r matches Ok(v) && v@ == files@),
        glob_compiles(normalized_pattern(rpat.name@)) && selected_files(files@, rpat.name@).len()
            == 0 ==> (r matches Err(e) && e.kind matches ErrorKind::NoSuchRemoteFile(p) && p
            == *rpat),
        !glob_compiles(normalized_pattern(rpat.name@)) ==> (r matches Err(e) && e.kind
            matches ErrorKind::PatternError(p) && p@ == rpat.name@),
{
    let result = matching_file_list(files, rpat)?;
    if result.len() == 0 {
        Err(Error::from_kind(ErrorKind::NoSuchRemoteFile(rpat.clone())))
    } else {
        Ok(result)
    }
}

/// The single file a pattern selects: none is the no-such-remote-file
/// error, several is the many-to-one error.
pub fn one_matching_file(files: &Vec<FileMeta>, rpat: &RemotePattern) -> (r: Result<
    FileMeta,
    Error,
>)
    ensures
        glob_compiles(normalized_pattern(rpat.name@)) && selected_files(files@, rpat.name@).len()
            == 1 ==> (r matches Ok(f) && f == selected_files(files@, rpat.name@)[0]),
        glob_compiles(normalized_pattern(rpat.name@)) && selected_files(files@, rpat.name@).len()
            == 0 ==> (r matches Err(e) && e.kind matches ErrorKind::NoSuchRemoteFile(p) && p
            == *rpat),
        glob_compiles(normalized_pattern(rpat.name@)) && selected_files(files@, rpat.name@).len()
            > 1 ==> (r matches Err(e) && e.kind
            == ErrorKind::MultipleSourcesOneDestination),
        !glob_compiles(normalized_pattern(rpat.name@)) ==> (r matches Err(e) && e.kind
            matches ErrorKind::PatternError(p) && p@ == rpat.name@),
{
    let result = matching_file_list(files, rpat)?;
    if result.len() == 0 {
        Err(Error::from_kind(ErrorKind::NoSuchRemoteFile(rpat.clone())))
    } else if result.len() == 1 {
        Ok(result[0].clone())
    } else {
        Err(Error::from_kind(ErrorKind::MultipleSourcesOneDestination))
    }
}

/// The file carrying exactly a given name, taken from the front of the
/// listing; none is the no-such-remote-file error for `hw<N>:<name>`.
pub fn exact_file_name(files: &Vec<FileMeta>, hw: usize, name: &str) -> (r: Result<
    FileMeta,
    Error,
>)
    ensures
        (exists|i: int| 0 <= i < files@.len() && files@[i].name@ == name@) <==> r is Ok,
        r matches Ok(f) ==> exists|i: int|
            {
                &&& 0 <= i < files@.len()
                &&& f == files@[i]
                &&& files@[i].name@ == name@
                &&& forall|j: int| 0 <= j < i ==> files@[j].name@ != name@
            },
        r matches Err(e) ==> (e.kind matches ErrorKind::NoSuchRemoteFile(p) && p.hw == hw && p.name@
            == name@),
{
    let mut i: usize = 0;
    while i < files.len()
        invariant
            0 <= i <= files@.len(),
            forall|j: int| 0 <= j < i ==> files@[j].name@ != name@,
        decreases files@.len() - i,
    {
        if crate::text::str_eq(files[i].name.as_str(), name) {
            let found = files[i].clone();
            proof {
                let witness = i as int;
                assert(0 <= witness < files@.len() && files@[witness].name@ == name@);
            }
            return Ok(found);
        }
        i = i + 1;
    }
    Err(
        Error::from_kind(
            ErrorKind::NoSuchRemoteFile(RemotePattern::hw_name(hw, String::from_str(name))),
        ),
    )
}

/// The URI recorded for homework `n` by a run of submission records,
/// later records winning.
pub open spec fn uri_entry(subs: Seq<(usize, String)>, n: int) -> Option<Seq<char>>
    decreases subs.len(),
{
    if subs.len() == 0 {
        None
    } else if subs.last().0 == n {
        Some(subs.last().1@)
    } else {
        uri_entry(subs.drop_last(), n)
    }
}

/// One past the largest homework number a run of submission records
/// mentions.
pub open spec fn table_len(subs: Seq<(usize, String)>) -> nat
    decreases subs.len(),
{
    if subs.len() == 0 {
        0
    } else {
        let rest = table_len(subs.drop_last());
        let need = subs.last().0 + 1;
        if need > rest {
            need as nat
        } else {
            rest
        }
    }
}

/// Index submissions by homework number: entry `n` holds the full URI
/// of the submission for homework `n`, with the configured endpoint in
/// front, or nothing where no such submission was reported.
pub fn submission_uri_table(subs: &Vec<(usize, String)>, endpoint: &str) -> (r: Vec<Option<String>>)
    ensures
        r@.len() == table_len(subs@),
        forall|n: int|
            0 <= n < r@.len() ==> (match uri_entry(subs@, n) {
                Some(u) => #[trigger] r@[n] matches Some(s) && s@ == endpoint@ + u,
                None => r@[n] is None,
            }),
{
    let mut result: Vec<Option<String>> = Vec::new();
    let mut i: usize = 0;
    while i < subs.len()
        invariant
            0 <= i <= subs@.len(),
            result@.len() == table_len(subs@.take(i as int)),
            forall|n: int|
                0 <= n < result@.len() ==> (match uri_entry(subs@.take(i as int), n) {
                    Some(u) => #[trigger] result@[n] matches Some(s) && s@ == endpoint@ + u,
                    None => result@[n] is None,
                }),
        decreases subs@.len() - i,
    {
        let ghost prefix = subs@.take(i as int);
        let ghost extended = subs@.take(i + 1);
        proof {
            assert(extended.drop_last() =~= prefix);
            assert(extended.last() == subs@[i as int]);
        }
        let number = subs[i].0;
        while number >= result.len()
            invariant
                i < subs@.len(),
                number == subs@[i as int].0,
                result@.len() >= table_len(subs@.take(i as int)),
                result@.len() == table_len(subs@.take(i as int)) || result@.len() <= number + 1,
                forall|n: int|
                    0 <= n < result@.len() ==> (match uri_entry(subs@.take(i as int), n) {
                        Some(u) => #[trigger] result@[n] matches Some(s) && s@ == endpoint@ + u,
                        None => result@[n] is None,
                    }),
            decreases number + 1 - result@.len(),
        {
            proof {
                crate::listing::lemma_uri_entry_above(subs@.take(i as int), result@.len() as int);
            }
            result.push(None);
        }
        let mut uri = String::from_str(endpoint);
        uri.append(subs[i].1.as_str());
        result.set(number, Some(uri));
        proof {
            assert(table_len(extended) == if subs@[i as int].0 + 1 > table_len(prefix) {
                (subs@[i as int].0 + 1) as nat
            } else {
                table_len(prefix)
            });
            lemma_table_len_bounds(prefix);
            assert forall|n: int| 0 <= n < result@.len() implies (match uri_entry(extended, n) {
                Some(u) => #[trigger] result@[n] matches Some(s) && s@ == endpoint@ + u,
                None => result@[n] is None,
            }) by {
                if n != number {
                    assert(uri_entry(extended, n) == uri_entry(prefix, n));
                    if n >= table_len(prefix) {
                        lemma_uri_entry_above(prefix, n);
                    }
                }
            }
        }
        i = i + 1;
    }
    proof {
        assert(subs@.take(subs@.len() as int) =~= subs@);
    }
    result
}

/// Beyond the table's length every entry is empty.
proof fn lemma_uri_entry_above(subs: Seq<(usize, String)>, n: int)
    requires
        n >= table_len(subs),
    ensures
        uri_entry(subs, n) is None,
    decreases subs.len(),
{
    if subs.len() > 0 {
        lemma_table_len_bounds(subs);
        lemma_uri_entry_above(subs.drop_last(), n);
    }
}

/// A record's own number is below the table's length, and the length
/// only grows along the run.
proof fn lemma_table_len_bounds(subs: Seq<(usize, String)>)
    ensures
        subs.len() > 0 ==> table_len(subs) >= subs.last().0 + 1,
        subs.len() > 0 ==> table_len(subs) >= table_len(subs.drop_last()),
{
}

/// Look a homework number up in the table; a missing entry is the
/// unknown-homework error.
pub fn uri_for_submission(table: &Vec<Option<String>>, number: usize) -> (r: Result<String, Error>)
    ensures
        (number < table@.len() && table@[number as int] is Some) <==> r is Ok,
        r matches Ok(uri) ==> Some(uri) == table@[number as int],
        r matches Err(e) ==> e.kind == ErrorKind::UnknownHomework(number),
{
    if number < table.len() {
        match &table[number] {
            Some(uri) => Ok(uri.clone()),
            None => Err(Error::from_kind(ErrorKind::UnknownHomework(number))),
        }
    } else {
        Err(Error::from_kind(ErrorKind::UnknownHomework(number)))
    }
}

} // verus!
