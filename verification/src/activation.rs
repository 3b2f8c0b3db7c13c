//! The record of the active skill. At most one skill is active at a time;
//! activating another replaces it.

use crate::definition::text_of;
use vstd::prelude::*;
use vstd::string::*;

verus! {

/// The active skill: its name and the allow-list it was activated with
/// (`None`: no restriction).
#[derive(Debug, Clone)]
pub struct ActiveSkill {
    pub name: String,
    pub allowed_tools: Option<String>,
}

/// What an `ActiveSkill` holds, as character sequences.
pub struct ActiveSkillView {
    pub name: Seq<char>,
    pub allowed_tools: Option<Seq<char>>,
}

impl View for ActiveSkill {
    type V = ActiveSkillView;

    open spec fn view(&self) -> ActiveSkillView {
        ActiveSkillView { name: self.name@, allowed_tools: text_of(self.allowed_tools) }
    }
}

/// The view of an optional record.
pub open spec fn active_view(a: Option<ActiveSkill>) -> Option<ActiveSkillView> {
    match a {
        Some(s) => Some(s@),
        None => None,
    }
}

/// A store for the record of the active skill, held in memory. What keeps
/// the record between runs loads it into a store and saves the store back.
#[derive(Debug, Clone)]
pub struct ActivationStore {
    pub record: Option<ActiveSkill>,
}

impl View for ActivationStore {
    type V = Option<ActiveSkillView>;

    open spec fn view(&self) -> Option<ActiveSkillView> {
        active_view(self.record)
    }
}

impl ActivationStore {
    /// A store with no active skill.
    pub fn new() -> (r: ActivationStore)
        ensures
            r@ is None,
    {
        ActivationStore { record: None }
    }

    /// A store that holds what was read back: a record, or nothing where
    /// none could be read.
    pub fn load(record: Option<ActiveSkill>) -> (r: ActivationStore)
        ensures
            r@ == active_view(record),
    {
        ActivationStore { record }
    }

    /// The active skill, if any.
    pub fn get_active(&self) -> (r: Option<ActiveSkill>)
        ensures
            active_view(r) == self@,
    {
        match &self.record {
            Some(a) => {
                let allowed_tools = match &a.allowed_tools {
                    Some(t) => Some(t.clone()),
                    None => None,
                };
                Some(ActiveSkill { name: a.name.clone(), allowed_tools })
            },
            None => None,
        }
    }

    /// Makes `name` the active skill, with its allow-list. Whatever was
    /// active before is gone.
    pub fn set_active(&mut self, name: &str, allowed_tools: Option<String>)
        ensures
            final(self)@ == Some(
                ActiveSkillView { name: name@, allowed_tools: text_of(allowed_tools) },
            ),
    {
        self.record = Some(ActiveSkill { name: name.to_owned(), allowed_tools });
    }

    /// Leaves no skill active. Not an error where none was.
    pub fn clear_active(&mut self)
        ensures
            final(self)@ is None,
    {
        self.record = None;
    }
}

/// What is read after a skill was set active is that skill: a store whose
/// view is the record set hands out a record with that name and allow-list.
pub proof fn lemma_read_after_set(
    store: ActivationStore,
    name: Seq<char>,
    allowed_tools: Option<Seq<char>>,
    read: Option<ActiveSkill>,
)
    requires
        store@ == Some(ActiveSkillView { name, allowed_tools }),
        active_view(read) == store@,
    ensures
        read matches Some(a) && a.name@ == name && text_of(a.allowed_tools) == allowed_tools,
{
}

/// What is read after the record was cleared is nothing.
pub proof fn lemma_read_after_clear(store: ActivationStore, read: Option<ActiveSkill>)
    requires
        store@ is None,
        active_view(read) == store@,
    ensures
        read is None,
{
}

} // verus!
