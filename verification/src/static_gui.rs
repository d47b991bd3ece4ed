//! Which file of the graphical interface answers a request.

use crate::outside;
use crate::outside::{guess_type, is_header_value};
use crate::text;
use crate::text::{concat2, strip_prefix, trim_start_matches};
use vstd::prelude::*;

verus! {

/// The path of a request below the root of the interface.
pub open spec fn relative(uri_path: Seq<char>) -> Seq<char> {
    let inner = match text::without_prefix(uri_path, "/gui/"@) {
        Some(rest) => rest,
        None => match text::without_prefix(uri_path, "/gui"@) {
            Some(rest) => rest,
            None => uri_path,
        },
    };
    text::trim_start_char(inner, '/')
}

/// The files that may answer a request, the first that exists does.
pub open spec fn candidate_paths(uri_path: Seq<char>) -> Seq<Seq<char>> {
    let rel = relative(uri_path);
    if rel.len() == 0 {
        seq!["index.html"@]
    } else {
        seq![rel, rel + ".html"@, rel + "/index.html"@, "index.html"@]
    }
}

/// The files that may answer a request, in order of preference.
pub fn candidates(uri_path: &str) -> (r: Vec<String>)
    ensures
        text::views(r@) == candidate_paths(uri_path@),
{
    let inner: String = match strip_prefix(uri_path, "/gui/") {
        Some(rest) => rest,
        None => match strip_prefix(uri_path, "/gui") {
            Some(rest) => rest,
            None => uri_path.to_owned(),
        },
    };
    let rel: String = trim_start_matches(inner.as_str(), '/');
    let mut out: Vec<String> = Vec::new();
    if rel.as_str().is_empty() {
        out.push("index.html".to_owned());
    } else {
        out.push(rel.clone());
        out.push(concat2(rel.as_str(), ".html"));
        out.push(concat2(rel.as_str(), "/index.html"));
        out.push("index.html".to_owned());
    }
    proof {
        assert(text::views(out@) =~= candidate_paths(uri_path@));
    }
    out
}

/// What is said where no file answers.
pub const NOT_FOUND: &'static str = "GUI file not found";

/// The media type of a file of unknown content.
pub const OCTET_STREAM: &'static str = "application/octet-stream";

/// The media type that a file is sent with.
pub open spec fn sent_type(guess: Seq<char>) -> Seq<char> {
    if forall|i: int| 0 <= i < guess.len() ==> outside::is_header_char(#[trigger] guess[i]) {
        guess
    } else {
        OCTET_STREAM@
    }
}

/// The media type that a file is sent with, given the type that its name
/// suggests: that one, unless a header cannot hold it.
pub fn header_type(guess: String) -> (r: String)
    ensures
        r@ == sent_type(guess@),
{
    if is_header_value(guess.as_str()) {
        guess
    } else {
        OCTET_STREAM.to_owned()
    }
}

/// What answers a request for a file.
pub enum GuiAnswer {
    /// The file, and the media type it is sent with.
    Found { path: String, content_type: String },
    /// No file answers.
    NotFound,
}

/// The first place at which the list holds `true`, or its length.
pub open spec fn first_present(present: Seq<bool>) -> nat
    decreases present.len(),
{
    if present.len() == 0 {
        0
    } else if present[0] {
        0
    } else {
        1 + first_present(present.skip(1))
    }
}

proof fn lemma_first_present(present: Seq<bool>, n: int)
    requires
        0 <= n <= present.len(),
        forall|i: int| 0 <= i < n ==> !present[i],
        n < present.len() ==> present[n],
    ensures
        first_present(present) == n,
    decreases present.len(),
{
    if n > 0 {
        assert forall|i: int| 0 <= i < n - 1 implies !present.skip(1)[i] by {
            assert(present.skip(1)[i] == present[i + 1]);
        }
        lemma_first_present(present.skip(1), n - 1);
    }
}

/// The file that answers a request, where `present` says which of its candidates
/// exist: the first of them.
pub fn serve_gui(uri_path: &str, present: &Vec<bool>) -> (r: GuiAnswer)
    requires
        present@.len() == candidate_paths(uri_path@).len(),
    ensures
        ({
            let n = first_present(present@) as int;
            if n < present@.len() {
                r matches GuiAnswer::Found { path, content_type } && path@ == candidate_paths(
                    uri_path@,
                )[n] && content_type@ == sent_type(outside::guessed_type(path@))
            } else {
                r is NotFound
            }
        }),
{
    let paths: Vec<String> = candidates(uri_path);
    let ghost all = candidate_paths(uri_path@);
    let mut i: usize = 0;
    while i < paths.len()
        invariant
            text::views(paths@) == all,
            all == candidate_paths(uri_path@),
            present@.len() == all.len(),
            i <= all.len(),
            forall|j: int| 0 <= j < i ==> !present@[j],
        decreases all.len() - i,
    {
        if present[i] {
            proof {
                lemma_first_present(present@, i as int);
                assert(all[i as int] == paths@[i as int]@);
            }
            let path: String = paths[i].clone();
            let content_type: String = header_type(guess_type(path.as_str()));
            return GuiAnswer::Found { path, content_type };
        }
        i = i + 1;
    }
    proof {
        lemma_first_present(present@, i as int);
    }
    GuiAnswer::NotFound
}

/// The start page answers every request that no other file answers.
pub proof fn lemma_start_page_is_last_resort(uri_path: Seq<char>)
    ensures
        candidate_paths(uri_path).len() > 0,
        candidate_paths(uri_path).last() == "index.html"@,
{
}

} // verus!
