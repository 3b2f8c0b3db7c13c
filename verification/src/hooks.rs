//! What the host is told when it asks before a tool call, at the start of a
//! prompt, and when a skill is invoked.

use crate::activation::{ActivationStore, ActiveSkillView};
use crate::definition::{parse_skill, skill_of, text_of, Skill, SkillView};
use crate::policy::{is_allowed, is_tool_allowed};
use crate::text::{join, joined, same_text, slice_to_string, starts_with, texts, to_chars};
use crate::catalog::skills_view;
use vstd::prelude::*;
use vstd::string::*;

verus! {

/// The skill that a tool's name invokes: what follows `skill_`, for every
/// tool so named but the marketplace.
pub open spec fn invoked(tool: Seq<char>) -> Option<Seq<char>> {
    if "skill_"@.is_prefix_of(tool) && tool != "skill_marketplace"@ {
        Some(tool.skip(6))
    } else {
        None
    }
}

/// The skill that a tool's name invokes, if it invokes one.
pub fn invoked_skill(tool_name: &str) -> (r: Option<String>)
    ensures
        text_of(r) == invoked(tool_name@),
{
    let v = to_chars(tool_name);
    let p = to_chars("skill_");
    proof {
        reveal_strlit("skill_");
    }
    if starts_with(&v, &p) && !same_text(tool_name, "skill_marketplace") {
        assert(v@.skip(6) == v@.subrange(6, v@.len() as int));
        Some(slice_to_string(&v, 6, v.len()))
    } else {
        None
    }
}

/// The record that a tool call activates: the invoked skill under the name
/// in the tool's name, with the allow-list of its definition. None where
/// the tool invokes no skill or the skill has no valid definition.
pub open spec fn activation(tool: Seq<char>, definition: Option<Seq<char>>) -> Option<
    ActiveSkillView,
> {
    if invoked(tool) is Some && definition is Some && skill_of(definition.unwrap()) is Some {
        Some(
            ActiveSkillView {
                name: invoked(tool).unwrap(),
                allowed_tools: skill_of(definition.unwrap()).unwrap().allowed_tools,
            },
        )
    } else {
        None
    }
}

/// What a caller is told when a tool is kept out.
pub open spec fn denial_message(tool: Seq<char>, skill: Seq<char>, allowed: Seq<char>) -> Seq<
    char,
> {
    "Tool '"@ + tool + "' is not allowed while skill '"@ + skill + "' is active. Allowed tools: "@
        + allowed
}

/// The message that keeps `tool` out under the active record: there is one
/// where a skill is active, it has an allow-list, and the list does not
/// allow the tool.
pub open spec fn denial(tool: Seq<char>, active: Option<ActiveSkillView>) -> Option<Seq<char>> {
    if active is Some && active.unwrap().allowed_tools is Some && !is_allowed(
        tool,
        active.unwrap().allowed_tools.unwrap(),
    ) {
        Some(denial_message(tool, active.unwrap().name, active.unwrap().allowed_tools.unwrap()))
    } else {
        None
    }
}

/// The answer to the host's question before a tool call.
#[derive(Debug, Clone)]
pub enum PreToolOutcome {
    /// The call invoked a skill, which is now the active one.
    Activated,
    /// The call is kept out; the message says why.
    Blocked(String),
    /// The call may go on.
    Passed,
}

/// Decides on a tool call. `definition` is the text of the invoked skill's
/// definition, where the tool invokes a skill and the text could be read. A
/// call that invokes a valid skill makes it the active one and is never kept
/// out. Any other call is judged by the allow-list of the active skill, and
/// leaves the record as it is.
pub fn pre_tool(tool_name: &str, definition: Option<&str>, store: &mut ActivationStore) -> (r:
    PreToolOutcome)
    ensures
        match activation(
            tool_name@,
            match definition {
                Some(d) => Some(d@),
                None => None,
            },
        ) {
            Some(record) => r is Activated && final(store)@ == Some(record),
            None => final(store)@ == old(store)@ && match denial(tool_name@, old(store)@) {
                Some(message) => r matches PreToolOutcome::Blocked(m) && m@ == message,
                None => r is Passed,
            },
        },
{
    match invoked_skill(tool_name) {
        Some(name) => {
            match definition {
                Some(text) => {
                    match parse_skill(text) {
                        Some(skill) => {
                            store.set_active(name.as_str(), skill.allowed_tools);
                            return PreToolOutcome::Activated;
                        },
                        None => {},
                    }
                },
                None => {},
            }
        },
        None => {},
    }
    match &store.record {
        Some(active) => {
            match &active.allowed_tools {
                Some(allowed) => {
                    if !is_tool_allowed(tool_name, allowed.as_str()) {
                        let mut m = "Tool '".to_owned();
                        m.append(tool_name);
                        m.append("' is not allowed while skill '");
                        m.append(active.name.as_str());
                        m.append("' is active. Allowed tools: ");
                        m.append(allowed.as_str());
                        return PreToolOutcome::Blocked(m);
                    }
                },
                None => {},
            }
        },
        None => {},
    }
    PreToolOutcome::Passed
}

/// The line that presents one skill.
pub open spec fn skill_line(skill: SkillView) -> Seq<char> {
    "- **"@ + skill.name + "**: "@ + skill.description
}

/// The lines that present the skills: a heading, an empty line, one line
/// for each skill, an empty line, and a hint.
pub open spec fn skill_list_lines(skills: Seq<SkillView>) -> Seq<Seq<char>> {
    seq!["## Available Agent Skills"@, Seq::empty()] + skills.map_values(
        |s: SkillView| skill_line(s),
    ) + seq![
        Seq::empty(),
        "Use skill_[name] tools to invoke a skill and receive detailed instructions."@,
    ]
}

/// What is added to the system prompt for the given catalog: nothing where
/// it is empty, else the lines that present its skills.
pub open spec fn skill_list(skills: Seq<SkillView>) -> Option<Seq<char>> {
    if skills.len() == 0 {
        None
    } else {
        Some(joined(skill_list_lines(skills), "\n"@))
    }
}

/// What is added to the system prompt for the given catalog.
pub fn render_skill_list(skills: &Vec<Skill>) -> (r: Option<String>)
    ensures
        text_of(r) == skill_list(skills_view(skills@)),
{
    if skills.len() == 0 {
        return None;
    }
    let ghost all = skills_view(skills@);
    let ghost shown = all.map_values(|s: SkillView| skill_line(s));
    let ghost head = seq!["## Available Agent Skills"@, Seq::<char>::empty()];
    let mut lines: Vec<String> = Vec::new();
    lines.push("## Available Agent Skills".to_owned());
    lines.push(String::new());
    assert(texts(lines@) =~= head + shown.take(0));
    let mut i: usize = 0;
    while i < skills.len()
        invariant
            i <= skills.len(),
            all == skills_view(skills@),
            shown == all.map_values(|s: SkillView| skill_line(s)),
            head == seq!["## Available Agent Skills"@, Seq::<char>::empty()],
            texts(lines@) == head + shown.take(i as int),
        decreases skills.len() - i,
    {
        let ghost before = texts(lines@);
        let mut line = "- **".to_owned();
        line.append(skills[i].name.as_str());
        line.append("**: ");
        line.append(skills[i].description.as_str());
        assert(line@ == shown[i as int]);
        lines.push(line);
        assert(texts(lines@) =~= before.push(shown[i as int]));
        i += 1;
        assert(head + shown.take(i as int) =~= (head + shown.take(i - 1)).push(shown[i - 1]));
    }
    assert(shown.take(skills@.len() as int) == shown);
    let ghost body = texts(lines@);
    lines.push(String::new());
    lines.push(
        "Use skill_[name] tools to invoke a skill and receive detailed instructions.".to_owned(),
    );
    assert(texts(lines@) =~= skill_list_lines(all));
    Some(join(&lines, "\n"))
}

/// Which of the directories for supporting files a skill has.
#[derive(Debug, Clone, Copy, PartialEq, Eq, Structural)]
pub struct Supporting {
    pub scripts: bool,
    pub references: bool,
    pub assets: bool,
}

/// The names of the supporting directories that a skill has, in their fixed
/// order.
pub open spec fn supporting_names(s: Supporting) -> Seq<Seq<char>> {
    (if s.scripts {
        seq!["scripts"@]
    } else {
        Seq::empty()
    }) + (if s.references {
        seq!["references"@]
    } else {
        Seq::empty()
    }) + (if s.assets {
        seq!["assets"@]
    } else {
        Seq::empty()
    })
}

/// What an invoked skill answers: its name and instructions, then the
/// caller's arguments where there are any, then a note on its supporting
/// files where it has any.
pub open spec fn invocation(
    skill: SkillView,
    arguments: Option<Seq<char>>,
    supporting: Supporting,
) -> Seq<char> {
    "# Skill: "@ + skill.name + "\n\n"@ + skill.body + (if arguments is Some
        && arguments.unwrap().len() > 0 {
        "\n\n## Arguments\n"@ + arguments.unwrap()
    } else {
        Seq::empty()
    }) + (if supporting_names(supporting).len() > 0 {
        "\n\n## Supporting Files\nThis skill has supporting files in: "@ + joined(
            supporting_names(supporting),
            ", "@,
        )
            + "\n- Use `read_skill_file` to read file contents\n- Use `run_skill_script` to execute scripts"@
    } else {
        Seq::empty()
    })
}

/// What an invoked skill answers.
pub fn render_invocation(skill: &Skill, arguments: Option<&str>, supporting: Supporting) -> (r:
    String)
    ensures
        r@ == invocation(
            skill@,
            match arguments {
                Some(a) => Some(a@),
                None => None,
            },
            supporting,
        ),
{
    let mut r = "# Skill: ".to_owned();
    r.append(skill.name.as_str());
    r.append("\n\n");
    r.append(skill.body.as_str());
    let ghost base = r@;
    match arguments {
        Some(a) => {
            if a.unicode_len() > 0 {
                r.append("\n\n## Arguments\n");
                r.append(a);
                assert(r@ =~= base + ("\n\n## Arguments\n"@ + a@));
            } else {
                assert(r@ =~= base + Seq::<char>::empty());
            }
        },
        None => {
            assert(r@ =~= base + Seq::<char>::empty());
        },
    }
    let ghost mid = r@;
    let mut names: Vec<String> = Vec::new();
    assert(texts(names@) =~= Seq::<Seq<char>>::empty());
    if supporting.scripts {
        names.push("scripts".to_owned());
        assert(texts(names@) =~= seq!["scripts"@]);
    }
    let ghost first = texts(names@);
    if supporting.references {
        names.push("references".to_owned());
        assert(texts(names@) =~= first + seq!["references"@]);
    } else {
        assert(texts(names@) =~= first + Seq::<Seq<char>>::empty());
    }
    let ghost second = texts(names@);
    if supporting.assets {
        names.push("assets".to_owned());
        assert(texts(names@) =~= second + seq!["assets"@]);
    } else {
        assert(texts(names@) =~= second + Seq::<Seq<char>>::empty());
    }
    assert(texts(names@) == supporting_names(supporting));
    if names.len() > 0 {
        let listed = join(&names, ", ");
        r.append("\n\n## Supporting Files\nThis skill has supporting files in: ");
        r.append(listed.as_str());
        r.append(
            "\n- Use `read_skill_file` to read file contents\n- Use `run_skill_script` to execute scripts",
        );
        assert(r@ =~= mid + ("\n\n## Supporting Files\nThis skill has supporting files in: "@
            + joined(supporting_names(supporting), ", "@)
            + "\n- Use `read_skill_file` to read file contents\n- Use `run_skill_script` to execute scripts"@));
    } else {
        assert(r@ =~= mid + Seq::<char>::empty());
    }
    r
}

} // verus!
