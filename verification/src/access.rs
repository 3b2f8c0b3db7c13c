//! Contained access to the files of a skill: a path that a caller names is
//! accepted only where, once resolved, it is the skill's directory or lies
//! below it.

use crate::paths::ComponentPath;
use vstd::prelude::*;
use vstd::string::*;

verus! {

/// Why a path inside a skill was not resolved.
#[derive(Debug, Clone, Copy, PartialEq, Eq, Structural)]
pub enum AccessError {
    /// The skill has no directory.
    SkillNotFound,
    /// The skill's directory could not be resolved.
    InvalidSkillDirectory,
    /// The named path could not be resolved: there is no such file.
    FileNotFound,
    /// The named path resolves to a place outside the skill's directory.
    PathTraversal,
}

/// What was found on disk for a skill and a path named inside it: whether
/// the skill's directory exists, and the canonical forms of that directory
/// and of the named path joined to it, each absent where it could not be
/// resolved.
#[derive(Debug, Clone)]
pub struct Probe {
    pub root_exists: bool,
    pub canonical_root: Option<ComponentPath>,
    pub canonical_target: Option<ComponentPath>,
}

/// A path proved to be a skill's directory or to lie below it. Both the
/// directory and the path are in canonical form. A value of this type is
/// made by resolving only, so that every such value is contained.
#[derive(Debug)]
pub struct ResolvedPath {
    root: ComponentPath,
    target: ComponentPath,
}

impl ResolvedPath {
    /// The containment that every resolved path has: the components of the
    /// root are the first components of the target.
    #[verifier::type_invariant]
    spec fn contained(&self) -> bool {
        self.root@.is_prefix_of(self.target@)
    }

    /// The components of the skill's directory.
    pub closed spec fn root_view(&self) -> Seq<Seq<u8>> {
        self.root@
    }

    /// The components of the path.
    pub closed spec fn target_view(&self) -> Seq<Seq<u8>> {
        self.target@
    }

    /// The skill's directory.
    pub fn root(&self) -> (r: &ComponentPath)
        ensures
            r@ == self.root_view(),
            self.root_view().is_prefix_of(self.target_view()),
    {
        proof {
            use_type_invariant(self);
        }
        &self.root
    }

    /// The path, which is the skill's directory or lies below it.
    pub fn target(&self) -> (r: &ComponentPath)
        ensures
            r@ == self.target_view(),
            self.root_view().is_prefix_of(self.target_view()),
    {
        proof {
            use_type_invariant(self);
        }
        &self.target
    }
}

/// What resolving comes to for given findings. The findings are looked at
/// in a fixed order; containment is judged last, on the canonical forms
/// alone.
pub open spec fn resolution(
    root_exists: bool,
    canonical_root: Option<Seq<Seq<u8>>>,
    canonical_target: Option<Seq<Seq<u8>>>,
) -> Result<(Seq<Seq<u8>>, Seq<Seq<u8>>), AccessError> {
    if !root_exists {
        Err(AccessError::SkillNotFound)
    } else if canonical_root is None {
        Err(AccessError::InvalidSkillDirectory)
    } else if canonical_target is None {
        Err(AccessError::FileNotFound)
    } else if !canonical_root.unwrap().is_prefix_of(canonical_target.unwrap()) {
        Err(AccessError::PathTraversal)
    } else {
        Ok((canonical_root.unwrap(), canonical_target.unwrap()))
    }
}

/// The components of an optional path.
pub open spec fn path_view(p: Option<ComponentPath>) -> Option<Seq<Seq<u8>>> {
    match p {
        Some(q) => Some(q@),
        None => None,
    }
}

/// What a resolution holds, as sequences of components.
pub open spec fn resolved_view(r: Result<ResolvedPath, AccessError>) -> Result<
    (Seq<Seq<u8>>, Seq<Seq<u8>>),
    AccessError,
> {
    match r {
        Ok(p) => Ok((p.root_view(), p.target_view())),
        Err(e) => Err(e),
    }
}

/// Resolves a path inside a skill from what was found on disk. The answer is
/// a path only where the canonical target is the canonical root or lies
/// below it, however the caller wrote the path; every other target is a
/// traversal.
pub fn resolve(probe: Probe) -> (r: Result<ResolvedPath, AccessError>)
    ensures
        resolved_view(r) == resolution(
            probe.root_exists,
            path_view(probe.canonical_root),
            path_view(probe.canonical_target),
        ),
        r matches Ok(p) ==> p.root_view().is_prefix_of(p.target_view()),
{
    if !probe.root_exists {
        return Err(AccessError::SkillNotFound);
    }
    let root = match probe.canonical_root {
        Some(p) => p,
        None => {
            return Err(AccessError::InvalidSkillDirectory);
        },
    };
    let target = match probe.canonical_target {
        Some(p) => p,
        None => {
            return Err(AccessError::FileNotFound);
        },
    };
    if !target.starts_with(&root) {
        return Err(AccessError::PathTraversal);
    }
    Ok(ResolvedPath { root, target })
}

/// The text that tells a caller why access failed. `skill` is the skill's
/// name, `path` the path as the caller wrote it, and `what` says what
/// kind of thing was asked for ("File", "Script").
pub open spec fn error_text(
    error: AccessError,
    skill: Seq<char>,
    path: Seq<char>,
    what: Seq<char>,
) -> Seq<char> {
    match error {
        AccessError::SkillNotFound => "Error: Skill '"@ + skill + "' not found"@,
        AccessError::InvalidSkillDirectory => "Error: Invalid skill directory"@,
        AccessError::FileNotFound => "Error: "@ + what + " not found: "@ + path,
        AccessError::PathTraversal => "Error: Path traversal not allowed"@,
    }
}

impl AccessError {
    /// The text that tells a caller why access failed. A traversal is said
    /// to be one: it is never told as a file that is missing.
    pub fn message(&self, skill: &str, path: &str, what: &str) -> (s: String)
        ensures
            s@ == error_text(*self, skill@, path@, what@),
    {
        match self {
            AccessError::SkillNotFound => {
                let mut s = "Error: Skill '".to_owned();
                s.append(skill);
                s.append("' not found");
                s
            },
            AccessError::InvalidSkillDirectory => "Error: Invalid skill directory".to_owned(),
            AccessError::FileNotFound => {
                let mut s = "Error: ".to_owned();
                s.append(what);
                s.append(" not found: ");
                s.append(path);
                s
            },
            AccessError::PathTraversal => "Error: Path traversal not allowed".to_owned(),
        }
    }
}

/// A target outside the root is a traversal, whatever else holds of it; and
/// what resolves lies at or below the root.
pub proof fn lemma_containment(root: Seq<Seq<u8>>, target: Seq<Seq<u8>>)
    ensures
        !root.is_prefix_of(target) ==> resolution(true, Some(root), Some(target)) == Err::<
            (Seq<Seq<u8>>, Seq<Seq<u8>>),
            AccessError,
        >(AccessError::PathTraversal),
        root.is_prefix_of(target) ==> resolution(true, Some(root), Some(target)) == Ok::<
            (Seq<Seq<u8>>, Seq<Seq<u8>>),
            AccessError,
        >((root, target)),
{
}

} // verus!
