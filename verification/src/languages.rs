//! The names of the languages, as shown beside their codes.
use vstd::prelude::*;
use vstd::string::StringExecFns;

verus! {

/// The title of a language in the language itself, for the codes the
/// table knows; the empty text for every other code.
pub open spec fn title_of(code: Seq<char>) -> Seq<char> {
    if code == "se"@ {
        "davvisámegiella"@
    } else if code == "smj"@ {
        "julevsámegiella"@
    } else {
        Seq::empty()
    }
}

/// Whether two texts are the same, character by character.
pub fn same_text(a: &str, b: &str) -> (same: bool)
    ensures
        same == (a@ == b@),
{
    a.to_owned() == b.to_owned()
}

pub fn language_title(code: &str) -> (title: String)
    ensures
        title@ == title_of(code@),
{
    if same_text(code, "se") {
        String::from_str("davvisámegiella")
    } else if same_text(code, "smj") {
        String::from_str("julevsámegiella")
    } else {
        String::new()
    }
}

} // verus!
