//! Where the assistant's executable is looked for, and which of the places
//! that were probed is taken.

use vstd::prelude::*;
use vstd::string::*;
use crate::invoke::Platform;
use crate::text::texts;

verus! {

/// The directory that a candidate location starts from.
#[derive(Debug, Clone, Copy, PartialEq, Eq)]
pub enum Anchor {
    /// The root of the file system.
    Root,
    /// The directory named by `ProgramFiles`.
    ProgramFiles,
    /// The directory named by `ProgramFiles(x86)`.
    ProgramFilesX86,
    /// The directory named by `LOCALAPPDATA`.
    LocalAppData,
    /// The directory named by `HOME`.
    Home,
}

/// A place where the executable may be installed: an anchor directory and the
/// path components below it.
#[derive(Debug, Clone, PartialEq, Eq)]
pub struct Candidate {
    pub anchor: Anchor,
    pub parts: Vec<String>,
}

pub struct CandidateView {
    pub anchor: Anchor,
    pub parts: Seq<Seq<char>>,
}

impl View for Candidate {
    type V = CandidateView;

    open spec fn view(&self) -> CandidateView {
        CandidateView { anchor: self.anchor, parts: texts(self.parts@) }
    }
}

/// The views of a list of candidates, in order.
pub open spec fn candidate_views(v: Seq<Candidate>) -> Seq<CandidateView> {
    Seq::new(v.len(), |i: int| v[i]@)
}

/// The install location of the vendor under a Windows directory.
pub open spec fn vendor_install(anchor: Anchor) -> CandidateView {
    CandidateView { anchor, parts: seq!["Google"@, "Gemini"@, "gemini.exe"@] }
}

/// The candidate locations of a platform, in the order in which they are
/// probed: the well-known install directories first, the per-user directory
/// last.
pub open spec fn candidates_for(platform: Platform) -> Seq<CandidateView> {
    match platform {
        Platform::Windows => seq![
            vendor_install(Anchor::ProgramFiles),
            vendor_install(Anchor::ProgramFilesX86),
            vendor_install(Anchor::LocalAppData),
        ],
        Platform::MacOs | Platform::Linux => seq![
            CandidateView { anchor: Anchor::Root, parts: seq!["usr"@, "local"@, "bin"@, "gemini"@] },
            CandidateView { anchor: Anchor::Root, parts: seq!["usr"@, "bin"@, "gemini"@] },
            CandidateView { anchor: Anchor::Home, parts: seq![".local"@, "bin"@, "gemini"@] },
        ],
        Platform::Other => seq![],
    }
}

/// Whether the platform has a command lookup that is asked before any
/// candidate location is probed.
pub open spec fn has_command_lookup(platform: Platform) -> bool {
    platform is Windows
}

/// Whether the platform's command lookup is asked first.
pub fn uses_command_lookup(platform: Platform) -> (r: bool)
    ensures
        r == has_command_lookup(platform),
{
    match platform {
        Platform::Windows => true,
        _ => false,
    }
}

fn vendor_candidate(anchor: Anchor) -> (r: Candidate)
    ensures
        r@ == vendor_install(anchor),
{
    let mut parts: Vec<String> = Vec::new();
    parts.push("Google".to_owned());
    parts.push("Gemini".to_owned());
    parts.push("gemini.exe".to_owned());
    assert(texts(parts@) =~= seq!["Google"@, "Gemini"@, "gemini.exe"@]);
    Candidate { anchor, parts }
}

fn unix_candidate(anchor: Anchor, local: bool, first: &str) -> (r: Candidate)
    ensures
        r@.anchor == anchor,
        r@.parts == if local {
            seq![first@, "local"@, "bin"@, "gemini"@]
        } else {
            seq![first@, "bin"@, "gemini"@]
        },
{
    let mut parts: Vec<String> = Vec::new();
    parts.push(first.to_owned());
    if local {
        parts.push("local".to_owned());
    }
    parts.push("bin".to_owned());
    parts.push("gemini".to_owned());
    assert(texts(parts@) =~= if local {
        seq![first@, "local"@, "bin"@, "gemini"@]
    } else {
        seq![first@, "bin"@, "gemini"@]
    });
    Candidate { anchor, parts }
}

/// Lists the candidate locations of a platform in probing order.
pub fn candidates(platform: Platform) -> (r: Vec<Candidate>)
    ensures
        candidate_views(r@) == candidates_for(platform),
{
    let mut list: Vec<Candidate> = Vec::new();
    match platform {
        Platform::Windows => {
            list.push(vendor_candidate(Anchor::ProgramFiles));
            list.push(vendor_candidate(Anchor::ProgramFilesX86));
            list.push(vendor_candidate(Anchor::LocalAppData));
        },
        Platform::MacOs | Platform::Linux => {
            list.push(unix_candidate(Anchor::Root, true, "usr"));
            list.push(unix_candidate(Anchor::Root, false, "usr"));
            list.push(unix_candidate(Anchor::Home, false, ".local"));
        },
        Platform::Other => {},
    }
    assert(candidate_views(list@) =~= candidates_for(platform));
    list
}

/// Whether a command lookup gave a usable answer: it answered, and not with
/// nothing.
pub open spec fn lookup_answers(lookup: Option<String>) -> bool {
    match lookup {
        Some(path) => path@.len() > 0,
        None => false,
    }
}

/// Whether position `i` is the first probed location that exists. A location
/// without a probe result counts as absent.
pub open spec fn is_first_present(paths: Seq<String>, present: Seq<bool>, i: int) -> bool {
    &&& 0 <= i < paths.len()
    &&& i < present.len()
    &&& present[i]
    &&& forall|j: int| 0 <= j < i ==> !#[trigger] present[j]
}

/// Whether none of the probed locations exists.
pub open spec fn none_present(paths: Seq<String>, present: Seq<bool>) -> bool {
    forall|j: int| 0 <= j < paths.len() && j < present.len() ==> !#[trigger] present[j]
}

/// Picks the executable from what was found: the answer of the command
/// lookup, where there is one and it is not empty; else the first candidate
/// path that exists; else nothing. Absence is an answer, not an error.
pub fn select_executable(lookup: Option<String>, paths: &Vec<String>, present: &Vec<bool>) -> (r:
    Option<String>)
    ensures
        lookup_answers(lookup) ==> r == lookup,
        !lookup_answers(lookup) ==> match r {
            Some(path) => exists|i: int| #[trigger]
                is_first_present(paths@, present@, i) && path == paths@[i],
            None => none_present(paths@, present@),
        },
        !lookup_answers(lookup) && none_present(paths@, present@) ==> r is None,
{
    match lookup {
        Some(path) => {
            if !path.as_str().is_empty() {
                return Some(path);
            }
        },
        None => {},
    }
    let mut i: usize = 0;
    while i < paths.len() && i < present.len()
        invariant
            !lookup_answers(lookup),
            forall|j: int| 0 <= j < i ==> !#[trigger] present@[j],
        decreases paths.len() - i,
    {
        if present[i] {
            let found = paths[i].clone();
            assert(is_first_present(paths@, present@, i as int));
            return Some(found);
        }
        i += 1;
    }
    None
}

} // verus!
