use vstd::prelude::*;

pub mod deck;
pub mod extract;
pub mod model;
pub mod package;
pub mod scan;
pub mod text;

verus! {

/// Usage line shown when the program is invoked without a source URL.
pub fn get_help_message<'a>() -> (r: &'a str)
    ensures
        r@ == "Usage: ./quizlet-anki-export <Quizlet-Url> <(Output-File.apkg)>"@,
{
    "Usage: ./quizlet-anki-export <Quizlet-Url> <(Output-File.apkg)>"
}

/// The browser-like user-agent value the fetch collaborator sends: a fixed
/// configuration constant of the pipeline.
pub fn stealth_user_agent() -> (r: &'static str)
    ensures
        r@
            == "Mozilla/5.0 (Windows NT 10.0; Win64; x64) AppleWebKit/537.36 (KHTML, like Gecko) Chrome/112.0.5615.50 Safari/537.36)"@,
{
    "Mozilla/5.0 (Windows NT 10.0; Win64; x64) AppleWebKit/537.36 (KHTML, like Gecko) Chrome/112.0.5615.50 Safari/537.36)"
}

} // verus!
