//! Ignore patterns: which paths a scan leaves out.
//!
//! Every pattern of the list has to be a well-formed glob: a list with a
//! malformed pattern decides nothing and fails, at the first such pattern,
//! whatever the others match. A well-formed list leaves a path out when one
//! of its patterns matches the path as it stands or the name of the file
//! alone; the order of the patterns has no say in that.

use vstd::prelude::*;
use crate::path::{
    file_name, file_name_of, is_plain_name, lemma_file_name_under_any_directory, SEPARATOR,
};
use crate::text::{chars_of, string_of, texts};

verus! {

/// Whether `glob::Pattern::new` accepts the text as a pattern.
pub uninterp spec fn glob_well_formed(pattern: Seq<char>) -> bool;

/// Whether `glob::Pattern::matches`, on the pattern compiled from
/// `pattern`, finds that it covers the whole of `text`.
pub uninterp spec fn glob_matches(pattern: Seq<char>, text: Seq<char>) -> bool;

/// What the `Display` impl of `glob::PatternError` prints for the error
/// that `glob::Pattern::new` gives on a text it does not accept.
pub uninterp spec fn glob_error_text(pattern: Seq<char>) -> Seq<char>;

/// Compiles `pattern` with `glob::Pattern::new` and holds it against `text`
/// with `glob::Pattern::matches`. The call fails exactly on the texts that
/// the first does not accept, with the error it gave as its `Display`
/// prints it; otherwise it returns what the second found. All three depend
/// on nothing but the texts handed in.
#[verifier::external_body]
fn glob_match(pattern: &str, text: &str) -> (r: Result<bool, String>)
    ensures
        r is Ok <==> glob_well_formed(pattern@),
        r matches Ok(found) ==> found == glob_matches(pattern@, text@),
        r matches Err(why) ==> why@ == glob_error_text(pattern@),
{
    match glob::Pattern::new(pattern) {
        Ok(compiled) => Ok(compiled.matches(text)),
        Err(error) => Err(format!("{}", error)),
    }
}

/// A pattern of the ignore list is no well-formed glob.
#[derive(Debug, PartialEq, Eq)]
pub struct InvalidPattern {
    /// The place of the pattern in the list, counted from zero.
    pub index: usize,
    /// The pattern as it was given.
    pub pattern: String,
    /// What is wrong with it, in the words of the glob parser.
    pub detail: String,
}

/// Whether one well-formed pattern leaves a path out: it matches the path
/// as given, or the name of the file alone.
pub open spec fn excluded_by(pattern: Seq<char>, path: Seq<char>) -> bool {
    glob_matches(pattern, path) || glob_matches(pattern, file_name(path))
}

/// Every pattern before place `until` is a well-formed glob.
pub open spec fn well_formed_until(patterns: Seq<Seq<char>>, until: int) -> bool {
    forall|j: int| 0 <= j < until && j < patterns.len() ==> glob_well_formed(#[trigger] patterns[j])
}

/// Every pattern of the list is a well-formed glob.
pub open spec fn all_well_formed(patterns: Seq<Seq<char>>) -> bool {
    well_formed_until(patterns, patterns.len() as int)
}

/// The pattern at place `i` is malformed and none before it is.
pub open spec fn is_first_malformed(patterns: Seq<Seq<char>>, i: int) -> bool {
    &&& 0 <= i < patterns.len()
    &&& !glob_well_formed(patterns[i])
    &&& well_formed_until(patterns, i)
}

/// One of the patterns before place `until` leaves the path out.
pub open spec fn excluded_until(path: Seq<char>, patterns: Seq<Seq<char>>, until: int) -> bool {
    exists|j: int| 0 <= j < until && j < patterns.len() && excluded_by(#[trigger] patterns[j], path)
}

/// What a list of patterns decides about a path: `Err(i)` where the
/// pattern at place `i` is the first malformed one; else `Ok(true)` to
/// leave the path out, which it is when some pattern excludes it, and
/// `Ok(false)` to keep it.
pub open spec fn ignore_outcome(path: Seq<char>, patterns: Seq<Seq<char>>) -> Result<bool, nat> {
    if all_well_formed(patterns) {
        Ok(excluded_until(path, patterns, patterns.len() as int))
    } else {
        Err(choose|i: nat| is_first_malformed(patterns, i as int))
    }
}

/// A list has at most one first malformed pattern, and has one unless all
/// its patterns are well-formed.
pub proof fn lemma_first_malformed(patterns: Seq<Seq<char>>)
    ensures
        forall|i: int, j: int|
            is_first_malformed(patterns, i) && is_first_malformed(patterns, j) ==> i == j,
        !all_well_formed(patterns) ==> exists|i: nat| is_first_malformed(patterns, i as int),
{
    assert forall|i: int, j: int|
        is_first_malformed(patterns, i) && is_first_malformed(patterns, j) implies i == j by {
        if i < j {
            assert(glob_well_formed(patterns[i]));
        } else if j < i {
            assert(glob_well_formed(patterns[j]));
        }
    }
    if !all_well_formed(patterns) {
        lemma_malformed_before(patterns, patterns.len());
    }
}

/// Where not all patterns before a place are well-formed, one before it is
/// the first malformed one.
proof fn lemma_malformed_before(patterns: Seq<Seq<char>>, until: nat)
    requires
        until <= patterns.len(),
        !well_formed_until(patterns, until as int),
    ensures
        exists|i: nat| is_first_malformed(patterns, i as int),
    decreases until,
{
    if until > 0 {
        let before = (until - 1) as nat;
        if well_formed_until(patterns, before as int) {
            assert(!glob_well_formed(patterns[before as int])) by {
                if glob_well_formed(patterns[before as int]) {
                    assert forall|j: int| 0 <= j < until && j < patterns.len() implies
                        glob_well_formed(#[trigger] patterns[j]) by {
                        if j < before {
                        }
                    }
                }
            }
            assert(is_first_malformed(patterns, before as int));
        } else {
            lemma_malformed_before(patterns, before);
        }
    }
}

/// The outcome in words of the patterns themselves: a list with a
/// malformed pattern fails at the first of them, also where another
/// pattern matches; a list without one succeeds, and leaves the path out
/// exactly when one of its patterns excludes it.
pub proof fn lemma_ignore_outcome(path: Seq<char>, patterns: Seq<Seq<char>>)
    ensures
        ignore_outcome(path, patterns) is Ok <==> all_well_formed(patterns),
        ignore_outcome(path, patterns) matches Err(i) ==> is_first_malformed(patterns, i as int),
        ignore_outcome(path, patterns) matches Ok(left_out) ==> (left_out <==> exists|i: int|
            0 <= i < patterns.len() && excluded_by(#[trigger] patterns[i], path)),
        forall|i: int|
            is_first_malformed(patterns, i) ==> ignore_outcome(path, patterns) == Err::<bool, nat>(
                i as nat,
            ),
{
    lemma_first_malformed(patterns);
    if !all_well_formed(patterns) {
        let first = choose|i: nat| is_first_malformed(patterns, i as int);
        assert(is_first_malformed(patterns, first as int));
    } else {
        assert forall|i: int| is_first_malformed(patterns, i) implies false by {
            assert(glob_well_formed(patterns[i]));
        }
    }
}

/// In a list of well-formed patterns, one that matches the name of a file
/// leaves the file out under every directory, and on its own: what stands
/// before the name has no say.
pub proof fn lemma_name_match_ignores_under_any_directory(
    dir: Seq<char>,
    name: Seq<char>,
    patterns: Seq<Seq<char>>,
    k: int,
)
    requires
        is_plain_name(name),
        all_well_formed(patterns),
        0 <= k < patterns.len(),
        glob_matches(patterns[k], name),
    ensures
        ignore_outcome(name, patterns) == Ok::<bool, nat>(true),
        ignore_outcome(dir.push(SEPARATOR) + name, patterns) == Ok::<bool, nat>(true),
{
    lemma_file_name_under_any_directory(dir, name);
    assert(excluded_by(patterns[k], name));
    assert(excluded_by(patterns[k], dir.push(SEPARATOR) + name));
}

/// Holds one pattern against a path and the name of its file.
fn pattern_excludes(pattern: &str, path: &str, name: &str) -> (r: Result<bool, String>)
    requires
        name@ == file_name(path@),
    ensures
        r is Ok <==> glob_well_formed(pattern@),
        r matches Ok(found) ==> found == excluded_by(pattern@, path@),
        r matches Err(why) ==> why@ == glob_error_text(pattern@),
{
    match glob_match(pattern, path) {
        Ok(false) => glob_match(pattern, name),
        decided => decided,
    }
}

/// Decides whether the ignore list leaves `path` out.
///
/// Returns [`ignore_outcome`]: [`InvalidPattern`] for the first malformed
/// pattern of the list, with its place, its text and what the glob parser
/// says of it; for a list without one, whether some pattern matches the
/// path or the name of its file.
pub fn should_ignore(path: &str, ignores: &[String]) -> (r: Result<bool, InvalidPattern>)
    ensures
        match ignore_outcome(path@, texts(ignores@)) {
            Ok(left_out) => r == Ok::<bool, InvalidPattern>(left_out),
            Err(i) => r matches Err(e) && e.index == i && e.pattern@ == ignores@[i as int]@
                && e.detail@ == glob_error_text(ignores@[i as int]@),
        },
{
    let name = string_of(&file_name_of(&chars_of(path)));
    let ghost patterns = texts(ignores@);
    let mut left_out = false;
    let mut i: usize = 0;
    while i < ignores.len()
        invariant
            i <= ignores.len(),
            patterns == texts(ignores@),
            name@ == file_name(path@),
            well_formed_until(patterns, i as int),
            left_out == excluded_until(path@, patterns, i as int),
        decreases ignores.len() - i,
    {
        let pattern = &ignores[i];
        assert(patterns[i as int] == pattern@);
        match pattern_excludes(pattern.as_str(), path, name.as_str()) {
            Err(detail) => {
                proof {
                    assert(is_first_malformed(patterns, i as int));
                    lemma_ignore_outcome(path@, patterns);
                }
                return Err(InvalidPattern { index: i, pattern: pattern.clone(), detail });
            },
            Ok(found) => {
                proof {
                    if found {
                        assert(excluded_by(patterns[i as int], path@));
                    } else if excluded_until(path@, patterns, i + 1) {
                        let j = choose|j: int|
                            0 <= j < i + 1 && j < patterns.len() && excluded_by(
                                #[trigger] patterns[j],
                                path@,
                            );
                        assert(j < i);
                    }
                }
                left_out = left_out || found;
            },
        }
        i += 1;
    }
    Ok(left_out)
}

} // verus!
