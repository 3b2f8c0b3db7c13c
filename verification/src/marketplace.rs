//! References to skills in a marketplace: where a skill is fetched from and
//! under which name it is installed.

use crate::definition::text_of;
use crate::text::{
    first_index, join, joined, last_index_of, same_text, scan_back_for, scan_for, slice_to_string,
    starts_with, strip_trailing, strip_trailing_len, texts, to_chars,
};
use vstd::prelude::*;
use vstd::string::*;

verus! {

/// Where a skill comes from: the repository that holds it, and its name.
#[derive(Debug, Clone, PartialEq, Eq)]
pub struct SkillSource {
    pub repo_url: String,
    pub skill_name: String,
}

/// What follows the last `/` of `s`; all of `s` where it holds none.
pub open spec fn last_segment(s: Seq<char>) -> Seq<char> {
    s.skip(last_index_of(s, '/') + 1)
}

/// The repository and the name that a reference stands for. A reference
/// that begins with `http` is the repository's address, and the name is its
/// last segment, slashes at its end set aside. Any other reference with a
/// `/` names an owner before the first `/` and the skill behind it. A
/// reference without a `/` stands for nothing.
pub open spec fn source_of(reference: Seq<char>) -> Option<(Seq<char>, Seq<char>)> {
    let i = first_index(reference, '/');
    if "http"@.is_prefix_of(reference) {
        Some((reference, last_segment(strip_trailing(reference, '/'))))
    } else if 0 <= i < reference.len() {
        Some(("https://github.com/"@ + reference.take(i) + "/skills"@, reference.skip(i + 1)))
    } else {
        None
    }
}

/// Reads a reference to a skill: `owner/name`, or the address of a
/// repository.
pub fn parse_skill_ref(skill_ref: &str) -> (r: Option<SkillSource>)
    ensures
        match r {
            Some(s) => source_of(skill_ref@) == Some((s.repo_url@, s.skill_name@)),
            None => source_of(skill_ref@) is None,
        },
{
    let v = to_chars(skill_ref);
    let http = to_chars("http");
    assert(v@.subrange(0, v@.len() as int) == v@);
    if starts_with(&v, &http) {
        let n: usize = strip_trailing_len(&v, '/');
        let start: usize = scan_back_for(&v, '/', n);
        assert(v@.take(n as int).skip(start as int) == v@.subrange(start as int, n as int));
        let skill_name = slice_to_string(&v, start, n);
        return Some(SkillSource { repo_url: skill_ref.to_owned(), skill_name });
    }
    let i: usize = scan_for(&v, '/', 0, v.len());
    if i < v.len() {
        let owner = slice_to_string(&v, 0, i);
        let skill_name = slice_to_string(&v, i + 1, v.len());
        let mut repo_url = "https://github.com/".to_owned();
        repo_url.append(owner.as_str());
        repo_url.append("/skills");
        assert(v@.take(i as int) == v@.subrange(0, i as int));
        assert(v@.skip(i + 1) == v@.subrange(i + 1, v@.len() as int));
        Some(SkillSource { repo_url, skill_name })
    } else {
        None
    }
}

/// The name under which the skill that a reference names is installed: its
/// last segment.
pub fn installed_name(skill_ref: &str) -> (r: String)
    ensures
        r@ == last_segment(skill_ref@),
{
    let v = to_chars(skill_ref);
    assert(v@.take(v@.len() as int) == v@);
    let start: usize = scan_back_for(&v, '/', v.len());
    assert(v@.skip(start as int) == v@.subrange(start as int, v@.len() as int));
    slice_to_string(&v, start, v.len())
}

/// The directory, below the skills directory, that a skill is fetched into
/// before it is put in place: hidden, so that no listing takes it for a
/// skill.
pub fn staging_name(skill_name: &str) -> (r: String)
    ensures
        r@ == ".tmp_"@ + skill_name@,
{
    let mut r = ".tmp_".to_owned();
    r.append(skill_name);
    r
}

/// The place of a skill inside a repository.
pub fn repository_path(skill_name: &str) -> (r: String)
    ensures
        r@ == "skills/"@ + skill_name@,
{
    let mut r = "skills/".to_owned();
    r.append(skill_name);
    r
}

/// What is asked of the marketplace.
#[derive(Debug, Clone, PartialEq, Eq)]
pub enum Request {
    /// Install the skill that the reference names.
    Install(String),
    /// Remove the skill that the reference names.
    Remove(String),
    /// Search for skills that match the query.
    Search(String),
    /// List the skills on offer.
    List,
    /// List the skills that are installed.
    ListInstalled,
    /// Install was asked for without a reference.
    InstallWithoutReference,
    /// Remove was asked for without a reference.
    RemoveWithoutReference,
    /// An action that the marketplace does not have.
    UnknownAction(String),
}

/// What a `Request` holds, as character sequences.
pub enum RequestView {
    Install(Seq<char>),
    Remove(Seq<char>),
    Search(Seq<char>),
    List,
    ListInstalled,
    InstallWithoutReference,
    RemoveWithoutReference,
    UnknownAction(Seq<char>),
}

impl View for Request {
    type V = RequestView;

    open spec fn view(&self) -> RequestView {
        match self {
            Request::Install(r) => RequestView::Install(r@),
            Request::Remove(r) => RequestView::Remove(r@),
            Request::Search(q) => RequestView::Search(q@),
            Request::List => RequestView::List,
            Request::ListInstalled => RequestView::ListInstalled,
            Request::InstallWithoutReference => RequestView::InstallWithoutReference,
            Request::RemoveWithoutReference => RequestView::RemoveWithoutReference,
            Request::UnknownAction(a) => RequestView::UnknownAction(a@),
        }
    }
}

/// The request that an action and its arguments make. A missing action is
/// the empty one, which is unknown; a missing query is the empty query.
pub open spec fn request_of(
    action: Option<Seq<char>>,
    skill_ref: Option<Seq<char>>,
    query: Option<Seq<char>>,
) -> RequestView {
    let a = match action {
        Some(x) => x,
        None => Seq::empty(),
    };
    if a == "install"@ {
        match skill_ref {
            Some(r) => RequestView::Install(r),
            None => RequestView::InstallWithoutReference,
        }
    } else if a == "remove"@ {
        match skill_ref {
            Some(r) => RequestView::Remove(r),
            None => RequestView::RemoveWithoutReference,
        }
    } else if a == "search"@ {
        RequestView::Search(
            match query {
                Some(q) => q,
                None => Seq::empty(),
            },
        )
    } else if a == "list"@ {
        RequestView::List
    } else if a == "list_installed"@ {
        RequestView::ListInstalled
    } else {
        RequestView::UnknownAction(a)
    }
}

/// The request that an action and its arguments make.
pub fn request(action: Option<String>, skill_ref: Option<String>, query: Option<String>) -> (r:
    Request)
    ensures
        r@ == request_of(text_of(action), text_of(skill_ref), text_of(query)),
{
    let a = match action {
        Some(x) => x,
        None => String::new(),
    };
    if same_text(a.as_str(), "install") {
        match skill_ref {
            Some(r) => Request::Install(r),
            None => Request::InstallWithoutReference,
        }
    } else if same_text(a.as_str(), "remove") {
        match skill_ref {
            Some(r) => Request::Remove(r),
            None => Request::RemoveWithoutReference,
        }
    } else if same_text(a.as_str(), "search") {
        match query {
            Some(q) => Request::Search(q),
            None => Request::Search(String::new()),
        }
    } else if same_text(a.as_str(), "list") {
        Request::List
    } else if same_text(a.as_str(), "list_installed") {
        Request::ListInstalled
    } else {
        Request::UnknownAction(a)
    }
}

/// The request that a command line makes; `args` begins with the program's
/// name. The action is the argument after it, the reference the one after
/// that, and the query of a search all that follows the action, joined by
/// spaces. None where no action is given.
pub open spec fn cli_request_of(args: Seq<Seq<char>>) -> Option<RequestView> {
    if args.len() < 2 {
        None
    } else {
        Some(
            request_of(
                Some(args[1]),
                if args.len() > 2 {
                    Some(args[2])
                } else {
                    None
                },
                if args[1] == "search"@ {
                    Some(joined(args.skip(2), " "@))
                } else {
                    None
                },
            ),
        )
    }
}

/// The request that a command line makes.
pub fn cli_request(args: &Vec<String>) -> (r: Option<Request>)
    ensures
        match r {
            Some(q) => cli_request_of(texts(args@)) == Some(q@),
            None => cli_request_of(texts(args@)) is None,
        },
{
    if args.len() < 2 {
        return None;
    }
    let action = args[1].clone();
    let skill_ref = if args.len() > 2 {
        Some(args[2].clone())
    } else {
        None
    };
    let query = if same_text(action.as_str(), "search") {
        let mut rest: Vec<String> = Vec::new();
        let mut i: usize = 2;
        assert(texts(rest@) =~= texts(args@).subrange(2, 2));
        while i < args.len()
            invariant
                2 <= i <= args.len(),
                texts(rest@) == texts(args@).subrange(2, i as int),
            decreases args.len() - i,
        {
            let ghost before = texts(rest@);
            rest.push(args[i].clone());
            assert(texts(rest@) =~= before.push(args@[i as int]@));
            assert(texts(args@).subrange(2, i + 1) =~= before.push(args@[i as int]@));
            i += 1;
        }
        assert(texts(args@).subrange(2, args@.len() as int) =~= texts(args@).skip(2));
        Some(join(&rest, " "))
    } else {
        None
    };
    Some(request(Some(action), skill_ref, query))
}

} // verus!
