//! Paths of the host.
use vstd::prelude::*;

use crate::text::{chars_of, join2};

verus! {

/// A path in the spelling of the host, with the host's word on whether it is absolute.
#[derive(Debug)]
pub struct HostPath {
    pub text: String,
    pub absolute: bool,
}

/// A path with its spelling as characters.
pub ghost struct PathView {
    pub text: Seq<char>,
    pub absolute: bool,
}

impl View for HostPath {
    type V = PathView;

    open spec fn view(&self) -> PathView {
        PathView { text: self.text@, absolute: self.absolute }
    }
}

impl Clone for HostPath {
    fn clone(&self) -> (r: Self)
        ensures
            r@ == self@,
    {
        HostPath { text: self.text.clone(), absolute: self.absolute }
    }
}

/// `std::path::Path::is_absolute`.  The answer rests on the host's path syntax,
/// so nothing is said of it here.
#[verifier::external_body]
fn is_absolute(text: &str) -> (r: bool)
{
    std::path::Path::new(text).is_absolute()
}

impl HostPath {
    /// The path spelled `text`, as the host reads it.
    #[must_use]
    pub fn new(text: &str) -> (r: Self)
        ensures
            r@.text == text@,
    {
        HostPath { text: text.to_owned(), absolute: is_absolute(text) }
    }
}

/// A name behind a directory.  A separator stands between them, unless the directory
/// is empty or ends with one.
pub open spec fn joined(directory: PathView, separator: char, name: Seq<char>) -> PathView {
    PathView {
        text: if directory.text.len() == 0 || directory.text.last() == separator {
            directory.text + name
        } else {
            directory.text.push(separator) + name
        },
        absolute: directory.absolute,
    }
}

/// Where the state of an installation is kept, given the separator of the host.
#[must_use]
pub fn state_path(config_dir: &HostPath, separator: char) -> (r: HostPath)
    ensures
        r@ == joined(config_dir@, separator, "state.json"@),
{
    let chars = chars_of(config_dir.text.as_str());
    let text = if chars.len() == 0 || chars[chars.len() - 1] == separator {
        join2(config_dir.text.as_str(), "state.json")
    } else {
        let mut with_separator = config_dir.text.clone();
        with_separator.push(separator);
        join2(with_separator.as_str(), "state.json")
    };
    HostPath { text, absolute: config_dir.absolute }
}

/// The view of an optional path.
pub open spec fn opt_path(o: Option<HostPath>) -> Option<PathView> {
    match o {
        Some(p) => Some(p@),
        None => None,
    }
}

/// A copy of an optional path.
pub fn clone_opt_path(o: &Option<HostPath>) -> (r: Option<HostPath>)
    ensures
        opt_path(r) == opt_path(*o),
{
    match o {
        Some(p) => Some(p.clone()),
        None => None,
    }
}

} // verus!
