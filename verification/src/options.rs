//! Selection of the input source: a directory listing, an explicit list of
//! identifiers, or a list of search terms. The three are mutually
//! exclusive; naming more than one is a configuration error, reported
//! before any other work begins.

use vstd::prelude::*;

verus! {

/// The active input source for one invocation.
#[derive(Debug, PartialEq, Eq)]
pub enum Mode {
    /// Match the file names of this directory's entries.
    Directory(String),
    /// Match the identifiers given on the command line.
    ExplicitIds(Vec<String>),
    /// Search catalog names for these substrings.
    Search(Vec<String>),
}

/// A configuration error: more than one input source was named.
#[derive(Debug, PartialEq, Eq)]
pub enum OptionsError {
    ConflictingSources,
}

impl OptionsError {
    /// The diagnostic text for this error.
    pub fn message(&self) -> (r: String)
        ensures
            r@ == "only one of a directory, provided ids, or search terms may be given"@,
    {
        "only one of a directory, provided ids, or search terms may be given".to_owned()
    }
}

/// More than one input source was named.
pub open spec fn conflicting(
    ids: Option<Vec<String>>,
    terms: Option<Vec<String>>,
    directory: Option<String>,
) -> bool {
    (ids is Some && terms is Some) || (ids is Some && directory is Some) || (terms is Some
        && directory is Some)
}

/// Picks the input source. Each argument is present exactly when the user
/// named it; a directory argument left out falls back to the current
/// directory. Naming two or more sources is rejected.
pub fn select_mode(
    ids: Option<Vec<String>>,
    terms: Option<Vec<String>>,
    directory: Option<String>,
) -> (r: Result<Mode, OptionsError>)
    ensures
        r is Err <==> conflicting(ids, terms, directory),
        match r {
            Ok(m) => match m {
                Mode::ExplicitIds(v) => ids == Some(v),
                Mode::Search(v) => ids is None && terms == Some(v),
                Mode::Directory(d) => ids is None && terms is None && match directory {
                    Some(d0) => d == d0,
                    None => d@ == "./"@,
                },
            },
            Err(e) => e == OptionsError::ConflictingSources,
        },
{
    let n_sources: u32 = (if ids.is_some() {
        1
    } else {
        0
    }) + (if terms.is_some() {
        1
    } else {
        0
    }) + (if directory.is_some() {
        1
    } else {
        0
    });
    if n_sources > 1 {
        return Err(OptionsError::ConflictingSources);
    }
    if let Some(v) = ids {
        Ok(Mode::ExplicitIds(v))
    } else if let Some(v) = terms {
        Ok(Mode::Search(v))
    } else if let Some(d) = directory {
        Ok(Mode::Directory(d))
    } else {
        Ok(Mode::Directory("./".to_owned()))
    }
}

} // verus!
