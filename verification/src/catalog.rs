//! The catalog: the valid skills among the entries of a directory, ordered
//! by name.

use crate::definition::{parse_skill, skill_of, skill_view, text_of, Skill, SkillView};
use crate::text::to_chars;
use vstd::prelude::*;
use vstd::string::*;

verus! {

/// Whether `a` comes before `b`: at the first place where they differ, `a`
/// has the lesser character or has ended.
pub open spec fn text_lt(a: Seq<char>, b: Seq<char>) -> bool
    decreases a.len(),
{
    if b.len() == 0 {
        false
    } else if a.len() == 0 {
        true
    } else if a[0] != b[0] {
        a[0] < b[0]
    } else {
        text_lt(a.drop_first(), b.drop_first())
    }
}

/// Whether `a` comes before `b` in the order of their characters.
pub fn name_lt(a: &str, b: &str) -> (r: bool)
    ensures
        r == text_lt(a@, b@),
{
    let x = to_chars(a);
    let y = to_chars(b);
    let mut i: usize = 0;
    assert(x@.skip(0) == x@ && y@.skip(0) == y@);
    while i < x.len() && i < y.len() && x[i] == y[i]
        invariant
            i <= x.len(),
            i <= y.len(),
            text_lt(x@, y@) == text_lt(x@.skip(i as int), y@.skip(i as int)),
        decreases x.len() - i,
    {
        assert(x@.skip(i as int).drop_first() == x@.skip(i + 1));
        assert(y@.skip(i as int).drop_first() == y@.skip(i + 1));
        i += 1;
    }
    if i >= y.len() {
        false
    } else if i >= x.len() {
        true
    } else {
        x[i] < y[i]
    }
}

/// Whether the skills stand in the order of their names, equal names side
/// by side.
pub open spec fn ordered(s: Seq<SkillView>) -> bool {
    forall|i: int, j: int| 0 <= i < j < s.len() ==> !text_lt(#[trigger] s[j].name, #[trigger] s[i].name)
}

/// `s`, which is ordered, with `x` put behind the last skill that does not
/// come after it.
pub open spec fn inserted(s: Seq<SkillView>, x: SkillView) -> Seq<SkillView>
    decreases s.len(),
{
    if s.len() > 0 && text_lt(x.name, s.last().name) {
        inserted(s.drop_last(), x).push(s.last())
    } else {
        s.push(x)
    }
}

/// The skills of `s` ordered by name; skills of one name keep the order
/// they had.
pub open spec fn sorted_by_name(s: Seq<SkillView>) -> Seq<SkillView>
    decreases s.len(),
{
    if s.len() == 0 {
        s
    } else {
        inserted(sorted_by_name(s.drop_last()), s.last())
    }
}

/// Putting `x` into `s` at `pos` is `inserted`, where `x` comes before all
/// from `pos` on and not before the one in front of `pos`.
pub proof fn lemma_inserted_at(s: Seq<SkillView>, x: SkillView, pos: int)
    requires
        0 <= pos <= s.len(),
        forall|k: int| pos <= k < s.len() ==> text_lt(x.name, #[trigger] s[k].name),
        pos > 0 ==> !text_lt(x.name, s[pos - 1].name),
    ensures
        inserted(s, x) == s.insert(pos, x),
    decreases s.len(),
{
    if pos == s.len() {
        assert(s.insert(pos, x) =~= s.push(x));
    } else {
        lemma_inserted_at(s.drop_last(), x, pos);
        assert(s.insert(pos, x) =~= s.drop_last().insert(pos, x).push(s.last()));
    }
}

/// No text comes both before and after another.
pub proof fn lemma_text_lt_asymmetric(a: Seq<char>, b: Seq<char>)
    requires
        text_lt(a, b),
    ensures
        !text_lt(b, a),
    decreases a.len(),
{
    if a.len() > 0 && b.len() > 0 && a[0] == b[0] {
        lemma_text_lt_asymmetric(a.drop_first(), b.drop_first());
    }
}

/// What comes before `a` comes before everything that does not come before
/// `a`.
pub proof fn lemma_text_lt_transitive(x: Seq<char>, a: Seq<char>, b: Seq<char>)
    requires
        text_lt(x, a),
        !text_lt(b, a),
    ensures
        text_lt(x, b),
    decreases x.len(),
{
    if x.len() > 0 && a.len() > 0 && b.len() > 0 && x[0] == a[0] && b[0] == a[0] {
        lemma_text_lt_transitive(x.drop_first(), a.drop_first(), b.drop_first());
    }
}

/// Putting a skill into an ordered run leaves it ordered.
pub proof fn lemma_inserted_ordered(s: Seq<SkillView>, x: SkillView)
    requires
        ordered(s),
    ensures
        ordered(inserted(s, x)),
        inserted(s, x).len() == s.len() + 1,
        inserted(s, x).to_multiset() == s.to_multiset().insert(x),
    decreases s.len(),
{
    broadcast use vstd::seq_lib::group_to_multiset_ensures;

    if s.len() > 0 && text_lt(x.name, s.last().name) {
        let head = s.drop_last();
        let t = inserted(head, x);
        assert(ordered(head));
        lemma_inserted_ordered(head, x);
        let r = t.push(s.last());
        assert(s == head.push(s.last()));
        assert(head.to_multiset().insert(x).insert(s.last()) =~= head.to_multiset().insert(
            s.last(),
        ).insert(x));
        assert forall|i: int, j: int| 0 <= i < j < r.len() implies !text_lt(
            #[trigger] r[j].name,
            #[trigger] r[i].name,
        ) by {
            if j == r.len() - 1 {
                // every skill of `t` is one of `head` or is `x`
                assert(t.to_multiset().count(t[i]) > 0);
                if t[i] == x {
                    lemma_text_lt_asymmetric(x.name, s.last().name);
                } else {
                    assert(head.to_multiset().count(t[i]) > 0);
                    assert(head.contains(t[i]));
                    let k = choose|k: int| 0 <= k < head.len() && head[k] == t[i];
                    assert(s[k] == head[k]);
                    assert(!text_lt(s[s.len() - 1].name, s[k].name));
                }
            }
        }
    } else {
        let r = s.push(x);
        assert forall|i: int, j: int| 0 <= i < j < r.len() implies !text_lt(
            #[trigger] r[j].name,
            #[trigger] r[i].name,
        ) by {
            if j == r.len() - 1 {
                if text_lt(x.name, s[i].name) {
                    assert(!text_lt(s[s.len() - 1].name, s[i].name));
                    lemma_text_lt_transitive(x.name, s[i].name, s.last().name);
                }
            }
        }
    }
}

/// Sorting orders the skills by name and neither adds nor loses one.
pub proof fn lemma_sorted_by_name(s: Seq<SkillView>)
    ensures
        ordered(sorted_by_name(s)),
        sorted_by_name(s).len() == s.len(),
        sorted_by_name(s).to_multiset() == s.to_multiset(),
    decreases s.len(),
{
    broadcast use vstd::seq_lib::group_to_multiset_ensures;

    if s.len() > 0 {
        lemma_sorted_by_name(s.drop_last());
        lemma_inserted_ordered(sorted_by_name(s.drop_last()), s.last());
        assert(s == s.drop_last().push(s.last()));
    }
}

/// Sorting what is ordered changes nothing: sorting twice is sorting once.
pub proof fn lemma_sort_is_idempotent(s: Seq<SkillView>)
    ensures
        sorted_by_name(sorted_by_name(s)) == sorted_by_name(s),
{
    lemma_sorted_by_name(s);
    lemma_sort_keeps_ordered(sorted_by_name(s));
}

/// Skills that are ordered are their own sorting.
pub proof fn lemma_sort_keeps_ordered(s: Seq<SkillView>)
    requires
        ordered(s),
    ensures
        sorted_by_name(s) == s,
    decreases s.len(),
{
    if s.len() > 0 {
        let head = s.drop_last();
        assert(ordered(head));
        lemma_sort_keeps_ordered(head);
        if head.len() > 0 {
            assert(head.last() == s[s.len() - 2]);
            assert(!text_lt(s[s.len() - 1].name, s[s.len() - 2].name));
        }
        assert(head.push(s.last()) == s);
    }
}

/// The views of a run of skills.
pub open spec fn skills_view(skills: Seq<Skill>) -> Seq<SkillView> {
    skills.map_values(|s: Skill| s@)
}

/// Puts `skill` into `skills`, behind the last one that does not come after
/// it by name.
pub fn insert_skill(skills: &mut Vec<Skill>, skill: Skill)
    ensures
        skills_view(final(skills)@) == inserted(skills_view(old(skills)@), skill@),
        final(skills)@.len() == old(skills)@.len() + 1,
        forall|s: Skill| #[trigger] final(skills)@.contains(s) ==> s == skill || old(skills)@.contains(s),
{
    let ghost before = skills@;
    let ghost view = skills_view(skills@);
    let mut pos: usize = skills.len();
    while pos > 0 && name_lt(skill.name.as_str(), skills[pos - 1].name.as_str())
        invariant
            pos <= skills.len(),
            skills@ == before,
            view == skills_view(before),
            forall|k: int| pos <= k < view.len() ==> text_lt(skill@.name, #[trigger] view[k].name),
        decreases pos,
    {
        pos -= 1;
    }
    proof {
        lemma_inserted_at(view, skill@, pos as int);
    }
    skills.insert(pos, skill);
    assert(skills_view(skills@) =~= view.insert(pos as int, skill@));
    assert forall|s: Skill| #[trigger] skills@.contains(s) implies s == skill || before.contains(
        s,
    ) by {
        let k = choose|k: int| 0 <= k < skills@.len() && skills@[k] == s;
        if k < pos {
            assert(before[k] == s);
        } else if k > pos {
            assert(before[k - 1] == s);
        }
    }
}

/// An entry of the skills directory: its name, whether it is a directory,
/// and the text of the definition file inside it, where one could be read.
#[derive(Debug, Clone)]
pub struct CatalogEntry {
    pub name: String,
    pub is_dir: bool,
    pub definition: Option<String>,
}

/// What a `CatalogEntry` holds, as character sequences.
pub struct CatalogEntryView {
    pub name: Seq<char>,
    pub is_dir: bool,
    pub definition: Option<Seq<char>>,
}

impl View for CatalogEntry {
    type V = CatalogEntryView;

    open spec fn view(&self) -> CatalogEntryView {
        CatalogEntryView {
            name: self.name@,
            is_dir: self.is_dir,
            definition: text_of(self.definition),
        }
    }
}

/// The views of a run of entries.
pub open spec fn entries_view(entries: Seq<CatalogEntry>) -> Seq<CatalogEntryView> {
    entries.map_values(|e: CatalogEntry| e@)
}

/// Whether a name marks its entry as hidden: it begins with a dot.
pub open spec fn hidden(name: Seq<char>) -> bool {
    name.len() > 0 && name[0] == '.'
}

/// The skill that an entry gives: that of its definition, where the entry
/// is a directory that is not hidden and its definition is valid.
pub open spec fn candidate(e: CatalogEntryView) -> Option<SkillView> {
    if e.is_dir && !hidden(e.name) && e.definition is Some {
        skill_of(e.definition.unwrap())
    } else {
        None
    }
}

/// The skills that the entries give, in the order of the entries.
pub open spec fn found(entries: Seq<CatalogEntryView>) -> Seq<SkillView>
    decreases entries.len(),
{
    if entries.len() == 0 {
        Seq::empty()
    } else {
        match candidate(entries.last()) {
            Some(s) => found(entries.drop_last()).push(s),
            None => found(entries.drop_last()),
        }
    }
}

/// The catalog of a directory with the given entries: the skills found,
/// ordered by name.
pub open spec fn catalog(entries: Seq<CatalogEntryView>) -> Seq<SkillView> {
    sorted_by_name(found(entries))
}

/// Whether an entry of the skills directory may hold a skill: it is a
/// directory and its name does not begin with a dot.
pub fn is_skill_dir(name: &str, is_dir: bool) -> (b: bool)
    ensures
        b == (is_dir && !hidden(name@)),
{
    if !is_dir {
        return false;
    }
    let v = to_chars(name);
    !(v.len() > 0 && v[0] == '.')
}

/// The catalog of a directory with the given entries. An entry that gives no
/// valid skill is left out; nothing makes the listing fail. An empty or
/// missing directory has no entries and an empty catalog.
pub fn list_skills(entries: &Vec<CatalogEntry>) -> (r: Vec<Skill>)
    ensures
        skills_view(r@) == catalog(entries_view(entries@)),
        ordered(skills_view(r@)),
        forall|i: int| 0 <= i < r@.len() ==> (#[trigger] r@[i]).well_formed(),
{
    let mut skills: Vec<Skill> = Vec::new();
    let ghost all = entries_view(entries@);
    let mut i: usize = 0;
    assert(skills_view(skills@) =~= catalog(all.take(0)));
    while i < entries.len()
        invariant
            i <= entries.len(),
            all == entries_view(entries@),
            skills_view(skills@) == catalog(all.take(i as int)),
            forall|s: Skill| #[trigger] skills@.contains(s) ==> s.well_formed(),
        decreases entries.len() - i,
    {
        assert(all.take(i + 1).drop_last() == all.take(i as int));
        assert(all.take(i + 1).last() == entries@[i as int]@);
        let e = &entries[i];
        let got: Option<Skill> = if is_skill_dir(e.name.as_str(), e.is_dir) {
            match &e.definition {
                Some(text) => parse_skill(text.as_str()),
                None => None,
            }
        } else {
            None
        };
        assert(skill_view(got) == candidate(e@));
        let ghost before = found(all.take(i as int));
        match got {
            Some(skill) => {
                assert(found(all.take(i + 1)) == before.push(skill@));
                assert(before.push(skill@).drop_last() == before);
                insert_skill(&mut skills, skill);
            },
            None => {
                assert(found(all.take(i + 1)) == before);
            },
        }
        i += 1;
    }
    assert(all.take(entries@.len() as int) == all);
    proof {
        lemma_sorted_by_name(found(all));
        assert forall|k: int| 0 <= k < skills@.len() implies (#[trigger] skills@[k]).well_formed() by {
            assert(skills@.contains(skills@[k]));
        }
    }
    skills
}

/// The catalog of any entries is ordered by name, sorting it again changes
/// nothing, and it holds the skills found, each as often as it was found.
/// The catalog is a function of the entries: the same entries have the same
/// catalog.
pub proof fn lemma_catalog_is_ordered(entries: Seq<CatalogEntryView>)
    ensures
        ordered(catalog(entries)),
        sorted_by_name(catalog(entries)) == catalog(entries),
        catalog(entries).to_multiset() == found(entries).to_multiset(),
{
    lemma_sorted_by_name(found(entries));
    lemma_sort_is_idempotent(found(entries));
}

} // verus!
