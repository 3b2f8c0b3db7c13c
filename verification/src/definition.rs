//! Skill definitions: the text of a definition file, read into a validated
//! record or found to be no skill at all.

use crate::text::{
    find_from, find_in, lemma_find_from_is_first, slice_to_string, starts_with, to_chars, trim,
    trim_bounds,
};
use vstd::prelude::*;
use vstd::string::*;

verus! {

/// A value of a YAML document, as `serde_yaml` holds it.
#[verifier::external_type_specification]
#[verifier::external_body]
pub struct ExYamlValue(serde_yaml::Value);

/// The document that `serde_yaml` reads from `text` as a mapping with string
/// keys, where it reads one.
pub uninterp spec fn yaml_mapping(text: Seq<char>) -> Option<Map<Seq<char>, serde_yaml::Value>>;

/// The string that a YAML value holds, where it holds a string.
pub uninterp spec fn yaml_string(value: serde_yaml::Value) -> Option<Seq<char>>;

/// Whether `entries` lists the pairs of `doc`: every key, each with its
/// value, in no stated order.
pub open spec fn lists_entries(
    doc: Map<Seq<char>, serde_yaml::Value>,
    entries: Seq<(String, serde_yaml::Value)>,
) -> bool {
    &&& forall|i: int|
        0 <= i < entries.len() ==> doc.contains_key((#[trigger] entries[i]).0@)
            && doc[entries[i].0@] == entries[i].1
    &&& forall|k: Seq<char>| #[trigger]
        doc.contains_key(k) ==> exists|i: int|
            0 <= i < entries.len() && (#[trigger] entries[i]).0@ == k
}

/// `serde_yaml::from_str`, asked for a map from `String` to `Value`. It
/// answers when the text is a YAML mapping that it can read so, and the
/// answer depends on the text alone: `yaml_mapping` names it. The pairs are
/// handed out as a vector, in the order in which the map yields them.
#[verifier::external_body]
fn yaml_from_str(text: &str) -> (r: Option<Vec<(String, serde_yaml::Value)>>)
    ensures
        r is Some <==> yaml_mapping(text@) is Some,
        r matches Some(entries) ==> lists_entries(yaml_mapping(text@).unwrap(), entries@),
{
    match serde_yaml::from_str::<std::collections::HashMap<String, serde_yaml::Value>>(text) {
        Ok(doc) => Some(doc.into_iter().collect()),
        Err(_) => None,
    }
}

/// `serde_yaml::Value::as_str` hands out the string that a value holds, a
/// tag set aside, and nothing for a value of another kind: `yaml_string`
/// names that string.
pub assume_specification<'a>[ serde_yaml::Value::as_str ](value: &'a serde_yaml::Value) -> (r:
    Option<&'a str>)
    ensures
        r matches Some(s) ==> yaml_string(*value) == Some(s@),
        r is None ==> yaml_string(*value) is None,
;

/// A skill: its name, what it is for, the instructions it gives, and the
/// tools it allows while active (`None`: no restriction).
#[derive(Debug, Clone)]
pub struct Skill {
    pub name: String,
    pub description: String,
    pub body: String,
    pub allowed_tools: Option<String>,
}

/// What a `Skill` holds, as character sequences.
pub struct SkillView {
    pub name: Seq<char>,
    pub description: Seq<char>,
    pub body: Seq<char>,
    pub allowed_tools: Option<Seq<char>>,
}

/// The characters of an optional string.
pub open spec fn text_of(s: Option<String>) -> Option<Seq<char>> {
    match s {
        Some(t) => Some(t@),
        None => None,
    }
}

impl View for Skill {
    type V = SkillView;

    open spec fn view(&self) -> SkillView {
        SkillView {
            name: self.name@,
            description: self.description@,
            body: self.body@,
            allowed_tools: text_of(self.allowed_tools),
        }
    }
}

/// The view of an optional skill.
pub open spec fn skill_view(s: Option<Skill>) -> Option<SkillView> {
    match s {
        Some(k) => Some(k@),
        None => None,
    }
}

/// The longest name a skill may have, in characters.
pub const MAX_NAME_LEN: usize = 64;

/// The longest description a skill may have, in characters.
pub const MAX_DESCRIPTION_LEN: usize = 1024;

/// The characters a skill's name is made of: lowercase ASCII letters,
/// digits and the hyphen.
pub open spec fn name_char(c: char) -> bool {
    ('a' <= c && c <= 'z') || ('0' <= c && c <= '9') || c == '-'
}

/// A valid name: 1 to 64 characters, each a `name_char`.
pub open spec fn valid_name(name: Seq<char>) -> bool {
    &&& 1 <= name.len() <= MAX_NAME_LEN
    &&& forall|i: int| 0 <= i < name.len() ==> name_char(#[trigger] name[i])
}

/// A valid description: at most 1024 characters.
pub open spec fn valid_description(description: Seq<char>) -> bool {
    description.len() <= MAX_DESCRIPTION_LEN
}

impl Skill {
    /// The invariant of a skill that came out of the parser.
    pub open spec fn well_formed(&self) -> bool {
        valid_name(self.name@) && valid_description(self.description@)
    }
}

/// The line that opens the metadata block.
pub open spec fn opening_marker() -> Seq<char> {
    seq!['-', '-', '-']
}

/// What closes the metadata block: a line break and the marker.
pub open spec fn closing_marker() -> Seq<char> {
    seq!['\n', '-', '-', '-']
}

/// Whether `content` has a metadata block: it begins with the marker, and a
/// closing marker follows.
pub open spec fn has_metadata_block(content: Seq<char>) -> bool {
    opening_marker().is_prefix_of(content) && find_from(content, closing_marker(), 3) is Some
}

/// The text of the metadata block: what stands between the opening marker
/// and the first closing marker, trimmed.
pub open spec fn metadata_block(content: Seq<char>) -> Option<Seq<char>> {
    if has_metadata_block(content) {
        Some(trim(content.subrange(3, find_from(content, closing_marker(), 3).unwrap())))
    } else {
        None
    }
}

/// The body of a definition: what stands behind the closing marker that
/// ends the metadata block, trimmed. Where nothing stands behind it, the
/// body is empty. A text without a closing marker is all body.
pub open spec fn body_of(content: Seq<char>) -> Seq<char> {
    match find_from(content, closing_marker(), 3) {
        Some(p) => trim(content.subrange(p + 4, content.len() as int)),
        None => trim(content),
    }
}

/// The skill that metadata values and a definition text make: none where
/// the name or the description is missing or invalid.
pub open spec fn assemble(
    content: Seq<char>,
    name: Option<Seq<char>>,
    description: Option<Seq<char>>,
    allowed_tools: Option<Seq<char>>,
) -> Option<SkillView> {
    if name is Some && description is Some && valid_name(name.unwrap()) && valid_description(
        description.unwrap(),
    ) {
        Some(
            SkillView {
                name: name.unwrap(),
                description: description.unwrap(),
                body: body_of(content),
                allowed_tools,
            },
        )
    } else {
        None
    }
}

/// The string under `key` in a YAML mapping: none where the key is missing
/// or its value is no string.
pub open spec fn string_field(doc: Map<Seq<char>, serde_yaml::Value>, key: Seq<char>) -> Option<
    Seq<char>,
> {
    if doc.contains_key(key) {
        yaml_string(doc[key])
    } else {
        None
    }
}

/// The metadata of a definition that the library reads.
#[derive(Debug, Clone)]
pub struct Frontmatter {
    pub name: Option<String>,
    pub description: Option<String>,
    pub allowed_tools: Option<String>,
}

/// What a `Frontmatter` holds, as character sequences.
pub struct FrontmatterView {
    pub name: Option<Seq<char>>,
    pub description: Option<Seq<char>>,
    pub allowed_tools: Option<Seq<char>>,
}

impl View for Frontmatter {
    type V = FrontmatterView;

    open spec fn view(&self) -> FrontmatterView {
        FrontmatterView {
            name: text_of(self.name),
            description: text_of(self.description),
            allowed_tools: text_of(self.allowed_tools),
        }
    }
}

/// The view of an optional frontmatter.
pub open spec fn frontmatter_view(f: Option<Frontmatter>) -> Option<FrontmatterView> {
    match f {
        Some(m) => Some(m@),
        None => None,
    }
}

/// The metadata of a definition: none where the text has no metadata block
/// or the block is no YAML mapping.
pub open spec fn frontmatter_of(content: Seq<char>) -> Option<FrontmatterView> {
    match metadata_block(content) {
        None => None,
        Some(yaml) => match yaml_mapping(yaml) {
            None => None,
            Some(doc) => Some(
                FrontmatterView {
                    name: string_field(doc, "name"@),
                    description: string_field(doc, "description"@),
                    allowed_tools: string_field(doc, "allowed-tools"@),
                },
            ),
        },
    }
}

/// The skill that a definition text stands for, if any.
pub open spec fn skill_of(content: Seq<char>) -> Option<SkillView> {
    match frontmatter_of(content) {
        None => None,
        Some(m) => assemble(content, m.name, m.description, m.allowed_tools),
    }
}

/// Whether `name` is a valid name for a skill.
pub fn is_valid_name(name: &str) -> (b: bool)
    ensures
        b == valid_name(name@),
{
    let v = to_chars(name);
    if v.len() < 1 || v.len() > MAX_NAME_LEN {
        return false;
    }
    let mut i: usize = 0;
    while i < v.len()
        invariant
            i <= v.len(),
            v@ == name@,
            forall|j: int| 0 <= j < i ==> name_char(#[trigger] v@[j]),
        decreases v.len() - i,
    {
        let c = v[i];
        if !((c >= 'a' && c <= 'z') || (c >= '0' && c <= '9') || c == '-') {
            return false;
        }
        i += 1;
    }
    true
}

/// Whether `description` is a valid description for a skill.
pub fn is_valid_description(description: &str) -> (b: bool)
    ensures
        b == valid_description(description@),
{
    description.unicode_len() <= MAX_DESCRIPTION_LEN
}

/// The text of the metadata block of the definition `v`.
fn metadata_text(v: &Vec<char>) -> (r: Option<String>)
    ensures
        text_of(r) == metadata_block(v@),
{
    let open: Vec<char> = vec!['-', '-', '-'];
    assert(open@ =~= opening_marker());
    if !starts_with(v, &open) {
        return None;
    }
    let close: Vec<char> = vec!['\n', '-', '-', '-'];
    assert(close@ =~= closing_marker());
    match find_in(v, &close, 3) {
        None => None,
        Some(end) => {
            proof {
                lemma_find_from_is_first(v@, close@, 3);
            }
            let (a, b) = trim_bounds(v, 3, end);
            Some(slice_to_string(v, a, b))
        },
    }
}

/// The body of the definition `v`.
fn body_text(v: &Vec<char>) -> (s: String)
    ensures
        s@ == body_of(v@),
{
    let close: Vec<char> = vec!['\n', '-', '-', '-'];
    assert(close@ =~= closing_marker());
    let start: usize = match find_in(v, &close, 3) {
        Some(p) => {
            proof {
                lemma_find_from_is_first(v@, close@, 3);
                assert(p + close@.len() <= v.len());
            }
            p + 4
        },
        None => {
            assert(v@.subrange(0, v@.len() as int) =~= v@);
            0
        },
    };
    let (a, b) = trim_bounds(v, start, v.len());
    slice_to_string(v, a, b)
}

/// Makes a skill of the metadata values and the definition text they came
/// with: none where the name or the description is missing or invalid.
pub fn build_skill(
    content: &str,
    name: Option<String>,
    description: Option<String>,
    allowed_tools: Option<String>,
) -> (r: Option<Skill>)
    ensures
        skill_view(r) == assemble(
            content@,
            text_of(name),
            text_of(description),
            text_of(allowed_tools),
        ),
        r matches Some(s) ==> s.well_formed(),
{
    let name = match name {
        Some(n) => n,
        None => {
            return None;
        },
    };
    let description = match description {
        Some(d) => d,
        None => {
            return None;
        },
    };
    if !is_valid_name(name.as_str()) || !is_valid_description(description.as_str()) {
        return None;
    }
    let v = to_chars(content);
    let body = body_text(&v);
    Some(Skill { name, description, body, allowed_tools })
}

/// The string under `key` among the pairs of a YAML mapping.
fn lookup_string(
    entries: &Vec<(String, serde_yaml::Value)>,
    key: &str,
    Ghost(doc): Ghost<Map<Seq<char>, serde_yaml::Value>>,
) -> (r: Option<String>)
    requires
        lists_entries(doc, entries@),
    ensures
        text_of(r) == string_field(doc, key@),
{
    let k = key.to_owned();
    let mut i: usize = 0;
    while i < entries.len()
        invariant
            i <= entries.len(),
            k@ == key@,
            lists_entries(doc, entries@),
            forall|j: int| 0 <= j < i ==> (#[trigger] entries@[j]).0@ != key@,
        decreases entries.len() - i,
    {
        if entries[i].0 == k {
            assert(doc.contains_key(entries@[i as int].0@));
            return match entries[i].1.as_str() {
                Some(s) => Some(s.to_owned()),
                None => None,
            };
        }
        i += 1;
    }
    None
}

/// Reads the metadata of a definition: none where the text has no metadata
/// block or the block is no YAML mapping.
pub fn parse_frontmatter(content: &str) -> (r: Option<Frontmatter>)
    ensures
        frontmatter_view(r) == frontmatter_of(content@),
        !has_metadata_block(content@) ==> r is None,
{
    let v = to_chars(content);
    let yaml = match metadata_text(&v) {
        Some(y) => y,
        None => {
            return None;
        },
    };
    let entries = match yaml_from_str(yaml.as_str()) {
        Some(e) => e,
        None => {
            return None;
        },
    };
    let ghost doc = yaml_mapping(yaml@).unwrap();
    let name = lookup_string(&entries, "name", Ghost(doc));
    let description = lookup_string(&entries, "description", Ghost(doc));
    let allowed_tools = lookup_string(&entries, "allowed-tools", Ghost(doc));
    Some(Frontmatter { name, description, allowed_tools })
}

/// What is wrong with a text that is no valid definition.
#[derive(Debug, Clone, Copy, PartialEq, Eq, Structural)]
pub enum DefinitionError {
    /// The text has no metadata block.
    NoMetadataBlock,
    /// The metadata block is no YAML mapping.
    MetadataNotAMapping,
    /// The metadata has no name, or one that is no string.
    MissingName,
    /// The metadata has no description, or one that is no string.
    MissingDescription,
    /// The name is empty, too long, or holds a character it may not hold.
    InvalidName,
    /// The description is too long.
    InvalidDescription,
}

/// What is wrong with a definition text: the first fault in the order of
/// reading, or none.
pub open spec fn fault_of(content: Seq<char>) -> Option<DefinitionError> {
    if !has_metadata_block(content) {
        Some(DefinitionError::NoMetadataBlock)
    } else {
        match frontmatter_of(content) {
            None => Some(DefinitionError::MetadataNotAMapping),
            Some(m) => if m.name is None {
                Some(DefinitionError::MissingName)
            } else if m.description is None {
                Some(DefinitionError::MissingDescription)
            } else if !valid_name(m.name.unwrap()) {
                Some(DefinitionError::InvalidName)
            } else if !valid_description(m.description.unwrap()) {
                Some(DefinitionError::InvalidDescription)
            } else {
                None
            },
        }
    }
}

/// Reads a definition, and says what is wrong where it is none.
pub fn check_skill(content: &str) -> (r: Result<Skill, DefinitionError>)
    ensures
        match r {
            Ok(s) => skill_of(content@) == Some(s@) && fault_of(content@) is None
                && s.well_formed(),
            Err(e) => skill_of(content@) is None && fault_of(content@) == Some(e),
        },
{
    let m = match parse_frontmatter(content) {
        Some(m) => m,
        None => {
            let v = to_chars(content);
            return match metadata_text(&v) {
                Some(_) => Err(DefinitionError::MetadataNotAMapping),
                None => Err(DefinitionError::NoMetadataBlock),
            };
        },
    };
    let name = match m.name {
        Some(n) => n,
        None => {
            return Err(DefinitionError::MissingName);
        },
    };
    let description = match m.description {
        Some(d) => d,
        None => {
            return Err(DefinitionError::MissingDescription);
        },
    };
    if !is_valid_name(name.as_str()) {
        return Err(DefinitionError::InvalidName);
    }
    if !is_valid_description(description.as_str()) {
        return Err(DefinitionError::InvalidDescription);
    }
    Ok(build_skill(content, Some(name), Some(description), m.allowed_tools).unwrap())
}

/// Reads a definition. Every text that is not a valid definition gives
/// `None`, whatever is wrong with it: a caller that lists skills skips it.
pub fn parse_skill(content: &str) -> (r: Option<Skill>)
    ensures
        skill_view(r) == skill_of(content@),
        r matches Some(s) ==> s.well_formed(),
        !has_metadata_block(content@) ==> r is None,
{
    match check_skill(content) {
        Ok(s) => Some(s),
        Err(_) => None,
    }
}

/// A text stands for a skill exactly where nothing is wrong with it.
pub proof fn lemma_skill_iff_no_fault(content: Seq<char>)
    ensures
        skill_of(content) is Some <==> fault_of(content) is None,
{
}

/// A text without a metadata block stands for no skill.
pub proof fn lemma_no_block_no_skill(content: Seq<char>)
    requires
        !has_metadata_block(content),
    ensures
        skill_of(content) is None,
{
}

/// A definition whose name holds a character outside `[a-z0-9-]` or is
/// longer than 64 characters, or whose description is longer than 1024
/// characters, stands for no skill.
pub proof fn lemma_invalid_metadata_no_skill(content: Seq<char>)
    requires
        frontmatter_of(content) matches Some(m) && {
            ||| m.name matches Some(n) && exists|i: int| 0 <= i < n.len() && !name_char(n[i])
            ||| m.name matches Some(n) && n.len() > 64
            ||| m.description matches Some(d) && d.len() > 1024
        },
    ensures
        skill_of(content) is None,
{
}

} // verus!
