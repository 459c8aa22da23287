//! Flake references, as they are given on the command line.

use vstd::prelude::*;
use vstd::string::*;

use crate::text::{characters, place_of, position, text_of, trim, trimmed};

verus! {

// --- Models -------------------------------------------------------------

/// The flake that a reference names: what stands before the first `#`, and the
/// current directory where that is nothing.
pub open spec fn flake_of(reference: Seq<char>) -> Seq<char> {
    let end = place_of(reference, '#');
    if end == 0 {
        "."@
    } else {
        reference.take(end)
    }
}

/// The repository that a reference names: what stands behind the first `#`. An
/// empty name stands for every repository.
pub open spec fn repo_of(reference: Seq<char>) -> Seq<char> {
    let end = place_of(reference, '#');
    if end < reference.len() {
        reference.skip(end + 1)
    } else {
        Seq::empty()
    }
}

/// Whether a flake is a path on this machine.
pub open spec fn local(flake: Seq<char>) -> bool {
    flake.len() > 0 && (flake[0] == '.' || flake[0] == '/')
}

/// What is said of a flake that cannot be evaluated.
pub open spec fn evaluation_error(reference: Seq<char>, output: Seq<char>) -> Seq<char> {
    "evaluating flake `"@ + reference + "` failed:\n"@ + trimmed(output)
}

// --- Operations ----------------------------------------------------------

/// Splits `[flake-ref]#[repo]`.
pub fn split_flake_ref(reference: &str) -> (parts: (String, String))
    ensures
        parts.0@ == flake_of(reference@),
        parts.1@ == repo_of(reference@),
{
    let chars = characters(reference);
    let n: usize = chars.len();
    let end: usize = position(&chars, '#');
    let flake = if end == 0 {
        ".".to_owned()
    } else {
        text_of(&chars, 0, end)
    };
    let repo = if end < n {
        text_of(&chars, end + 1, n)
    } else {
        String::new()
    };
    (flake, repo)
}

/// Whether a flake is a path on this machine, which has to be made absolute
/// before it is evaluated.
pub fn is_local(flake: &str) -> (r: bool)
    ensures
        r == local(flake@),
{
    let chars = characters(flake);
    chars.len() > 0 && (chars[0] == '.' || chars[0] == '/')
}

/// What is said of a flake that cannot be evaluated.
pub fn evaluation_failure(reference: &str, output: &str) -> (message: String)
    ensures
        message@ == "evaluating flake `"@ + reference@ + "` failed:\n"@ + trimmed(output@),
        message@ == evaluation_error(reference@, output@),
{
    "evaluating flake `".to_owned().concat(reference).concat("` failed:\n").concat(
        trim(output).as_str(),
    )
}

} // verus!
