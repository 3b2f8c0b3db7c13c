//! The allow-list of an active skill: its entries, and the decision whether
//! a tool may be called under it.

use crate::text::{
    first_index, scan_for, slice_to_string, split_on, starts_with, same_text, to_chars, trim,
    trim_bounds,
};
use vstd::prelude::*;
use vstd::string::*;

verus! {

/// One entry of an allow-list: a tool's name, and the text that follows an
/// opening parenthesis where the entry has one. The pattern is kept as
/// written and takes no part in any decision.
#[derive(Debug, Clone)]
pub struct AllowEntry {
    pub base: String,
    pub pattern: Option<String>,
}

/// What an `AllowEntry` holds, as character sequences.
pub struct AllowEntryView {
    pub base: Seq<char>,
    pub pattern: Option<Seq<char>>,
}

impl View for AllowEntry {
    type V = AllowEntryView;

    open spec fn view(&self) -> AllowEntryView {
        AllowEntryView {
            base: self.base@,
            pattern: match self.pattern {
                Some(p) => Some(p@),
                None => None,
            },
        }
    }
}

/// The entry that one comma-separated piece of an allow-list stands for: the
/// piece is trimmed, and split at its first opening parenthesis.
pub open spec fn entry_of(raw: Seq<char>) -> AllowEntryView {
    let t = trim(raw);
    let i = first_index(t, '(');
    if 0 <= i < t.len() {
        AllowEntryView { base: t.take(i), pattern: Some(t.skip(i + 1)) }
    } else {
        AllowEntryView { base: t, pattern: None }
    }
}

/// The entries of the allow-list written as `spec`, in order.
pub open spec fn allow_list(spec: Seq<char>) -> Seq<AllowEntryView> {
    split_on(spec, ',').map_values(|piece: Seq<char>| entry_of(piece))
}

/// Whether some entry names `tool`.
pub open spec fn listed(tool: Seq<char>, entries: Seq<AllowEntryView>) -> bool {
    exists|i: int| 0 <= i < entries.len() && #[trigger] entries[i].base == tool
}

/// The tools that no allow-list can keep out: the three management tools
/// and every tool that invokes a skill.
pub open spec fn exempt(tool: Seq<char>) -> bool {
    ||| tool == "skill_marketplace"@
    ||| tool == "read_skill_file"@
    ||| tool == "run_skill_script"@
    ||| "skill_"@.is_prefix_of(tool)
}

/// Whether `tool` may be called under the allow-list written as `spec`.
pub open spec fn is_allowed(tool: Seq<char>, spec: Seq<char>) -> bool {
    listed(tool, allow_list(spec)) || exempt(tool)
}

/// The entry written in `v[lo..hi]`.
fn entry_from(v: &Vec<char>, lo: usize, hi: usize) -> (e: AllowEntry)
    requires
        lo <= hi <= v.len(),
    ensures
        e@ == entry_of(v@.subrange(lo as int, hi as int)),
{
    let (a, b) = trim_bounds(v, lo, hi);
    let ghost t = v@.subrange(a as int, b as int);
    let i: usize = scan_for(v, '(', a, b);
    if i < b {
        let base = slice_to_string(v, a, i);
        let pattern = slice_to_string(v, i + 1, b);
        assert(base@ =~= t.take(i - a));
        assert(pattern@ =~= t.skip(i - a + 1));
        AllowEntry { base, pattern: Some(pattern) }
    } else {
        AllowEntry { base: slice_to_string(v, a, b), pattern: None }
    }
}

/// Whether `tool` is one that no allow-list can keep out.
pub fn is_exempt(tool: &str) -> (b: bool)
    ensures
        b == exempt(tool@),
{
    if same_text(tool, "skill_marketplace") || same_text(tool, "read_skill_file") || same_text(
        tool,
        "run_skill_script",
    ) {
        return true;
    }
    let t = to_chars(tool);
    let p = to_chars("skill_");
    starts_with(&t, &p)
}

/// An allow-list in parsed form.
#[derive(Debug, Clone)]
pub struct AllowList {
    pub entries: Vec<AllowEntry>,
}

/// The views of a run of entries.
pub open spec fn entries_view(entries: Seq<AllowEntry>) -> Seq<AllowEntryView> {
    entries.map_values(|e: AllowEntry| e@)
}

impl View for AllowList {
    type V = Seq<AllowEntryView>;

    open spec fn view(&self) -> Seq<AllowEntryView> {
        entries_view(self.entries@)
    }
}

impl AllowList {
    /// Reads an allow-list: comma-separated entries, each a tool's name or a
    /// name followed by a parenthesised pattern.
    pub fn parse(spec: &str) -> (r: AllowList)
        ensures
            r@ == allow_list(spec@),
    {
        let v = to_chars(spec);
        let n: usize = v.len();
        let mut entries: Vec<AllowEntry> = Vec::new();
        let mut start: usize = 0;
        assert(v@.skip(0) =~= v@);
        assert(entries_view(entries@) + allow_list(v@) =~= allow_list(v@));
        loop
            invariant_except_break
                start <= n,
                allow_list(v@) == entries_view(entries@) + allow_list(v@.skip(start as int)),
            invariant
                n == v.len(),
                v@ == spec@,
            ensures
                allow_list(v@) == entries_view(entries@),
            decreases n - start,
        {
            let ghost rest = v@.skip(start as int);
            let ghost before = entries_view(entries@);
            let i: usize = scan_for(&v, ',', start, n);
            assert(rest == v@.subrange(start as int, n as int));
            let e = entry_from(&v, start, i);
            let ghost ev = e@;
            assert(rest.take(i - start) =~= v@.subrange(start as int, i as int));
            entries.push(e);
            assert(entries_view(entries@) =~= before.push(ev));
            if i == n {
                assert(allow_list(rest) =~= seq![ev]);
                assert(before.push(ev) =~= before + seq![ev]);
                break;
            }
            assert(rest.skip(i - start + 1) =~= v@.skip(i + 1));
            assert(allow_list(rest) =~= seq![ev] + allow_list(v@.skip(i + 1)));
            assert(before.push(ev) + allow_list(v@.skip(i + 1)) =~= before + (seq![ev]
                + allow_list(v@.skip(i + 1))));
            start = i + 1;
        }
        AllowList { entries }
    }

    /// Whether `tool` may be called under this list: an entry names it, or it
    /// is exempt. An entry's pattern is not looked at.
    pub fn permits(&self, tool: &str) -> (b: bool)
        ensures
            b == (listed(tool@, self@) || exempt(tool@)),
    {
        let t = tool.to_owned();
        let mut k: usize = 0;
        while k < self.entries.len()
            invariant
                k <= self.entries.len(),
                t@ == tool@,
                forall|j: int| 0 <= j < k ==> (#[trigger] self@[j]).base != tool@,
            decreases self.entries.len() - k,
        {
            if self.entries[k].base == t {
                assert(self@[k as int].base == tool@);
                return true;
            }
            k += 1;
        }
        is_exempt(tool)
    }
}

/// Whether `tool_name` may be called while a skill with the allow-list
/// `allowed_tools` is active. Entries are looked at first, the exemptions
/// after them, so that a list can add to what is allowed and never take an
/// exempt tool away.
pub fn is_tool_allowed(tool_name: &str, allowed_tools: &str) -> (b: bool)
    ensures
        b == is_allowed(tool_name@, allowed_tools@),
        exempt(tool_name@) ==> b,
{
    AllowList::parse(allowed_tools).permits(tool_name)
}

} // verus!
