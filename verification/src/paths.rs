//! Paths as sequences of components, and the places that the library's
//! files have below a given directory.

use vstd::prelude::*;
use vstd::string::*;

verus! {

/// A path, held as its components in order, each as the bytes of its name.
/// A separator never occurs in a component, so two paths are the same
/// exactly when their components are.
#[derive(Debug, Clone, PartialEq, Eq)]
pub struct ComponentPath {
    pub parts: Vec<Vec<u8>>,
}

/// The byte sequences of a run of components.
pub open spec fn parts_view(parts: Seq<Vec<u8>>) -> Seq<Seq<u8>> {
    parts.map_values(|p: Vec<u8>| p@)
}

impl View for ComponentPath {
    type V = Seq<Seq<u8>>;

    open spec fn view(&self) -> Seq<Seq<u8>> {
        parts_view(self.parts@)
    }
}

/// A copy of `v`.
pub fn copy_bytes(v: &Vec<u8>) -> (r: Vec<u8>)
    ensures
        r@ == v@,
{
    let mut r: Vec<u8> = Vec::new();
    let mut i: usize = 0;
    while i < v.len()
        invariant
            i <= v.len(),
            r@ == v@.take(i as int),
        decreases v.len() - i,
    {
        r.push(v[i]);
        i += 1;
        assert(v@.take(i as int) == v@.take(i - 1).push(v@[i - 1]));
    }
    assert(v@.take(v@.len() as int) == v@);
    r
}

/// Whether `a` and `b` hold the same bytes.
pub fn same_bytes(a: &Vec<u8>, b: &Vec<u8>) -> (r: bool)
    ensures
        r == (a@ == b@),
{
    if a.len() != b.len() {
        return false;
    }
    let mut i: usize = 0;
    while i < a.len()
        invariant
            i <= a.len(),
            a.len() == b.len(),
            forall|j: int| 0 <= j < i ==> a@[j] == b@[j],
        decreases a.len() - i,
    {
        if a[i] != b[i] {
            return false;
        }
        i += 1;
    }
    assert(a@ =~= b@);
    true
}

impl ComponentPath {
    /// The path with no component.
    pub fn new() -> (r: ComponentPath)
        ensures
            r@ == Seq::<Seq<u8>>::empty(),
    {
        let r = ComponentPath { parts: Vec::new() };
        assert(r@ =~= Seq::<Seq<u8>>::empty());
        r
    }

    /// A copy of this path.
    pub fn duplicate(&self) -> (r: ComponentPath)
        ensures
            r@ == self@,
    {
        let mut parts: Vec<Vec<u8>> = Vec::new();
        let mut i: usize = 0;
        while i < self.parts.len()
            invariant
                i <= self.parts.len(),
                parts_view(parts@) == self@.take(i as int),
            decreases self.parts.len() - i,
        {
            let ghost before = parts_view(parts@);
            let c = copy_bytes(&self.parts[i]);
            parts.push(c);
            i += 1;
            assert(parts_view(parts@) =~= before.push(c@));
            assert(self@.take(i as int) =~= self@.take(i - 1).push(self@[i - 1]));
        }
        assert(self@.take(self@.len() as int) =~= self@);
        ComponentPath { parts }
    }

    /// This path with one more component, `name`, at its end.
    pub fn child(&self, name: &str) -> (r: ComponentPath)
        ensures
            r@ == self@.push(name.spec_bytes()),
    {
        let mut r = self.duplicate();
        let ghost before = r@;
        let bytes = name.as_bytes_vec();
        r.parts.push(bytes);
        assert(r@ =~= before.push(name.spec_bytes()));
        r
    }

    /// Whether this path is `base` or lies below it: the components of
    /// `base` are the first components of this path.
    pub fn starts_with(&self, base: &ComponentPath) -> (b: bool)
        ensures
            b == base@.is_prefix_of(self@),
    {
        if base.parts.len() > self.parts.len() {
            return false;
        }
        let mut i: usize = 0;
        while i < base.parts.len()
            invariant
                i <= base.parts.len() <= self.parts.len(),
                forall|j: int| 0 <= j < i ==> self@[j] == base@[j],
            decreases base.parts.len() - i,
        {
            if !same_bytes(&self.parts[i], &base.parts[i]) {
                assert(self@[i as int] != base@[i as int]);
                assert(self@.subrange(0, base@.len() as int)[i as int] == self@[i as int]);
                return false;
            }
            i += 1;
        }
        assert(self@.subrange(0, base@.len() as int) =~= base@);
        true
    }
}

/// The directory that holds the skills, below the directory of the program.
pub fn skills_dir(plugin_dir: &ComponentPath) -> (r: ComponentPath)
    ensures
        r@ == plugin_dir@.push("skills".spec_bytes()),
{
    plugin_dir.child("skills")
}

/// The file that records the active skill, below the directory of the
/// program.
pub fn state_file(plugin_dir: &ComponentPath) -> (r: ComponentPath)
    ensures
        r@ == plugin_dir@.push(".active_skill.json".spec_bytes()),
{
    plugin_dir.child(".active_skill.json")
}

} // verus!
