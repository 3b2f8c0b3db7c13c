//! Which operation a call asks for: by the tool's name, or, where the host
//! gave none, by the arguments that came with it.

use crate::text::{same_text, starts_with, to_chars};
use vstd::prelude::*;
use vstd::string::*;

verus! {

/// Which of the arguments that tell the tools apart a call came with.
#[derive(Debug, Clone, Copy, PartialEq, Eq, Structural)]
pub struct ArgShape {
    pub has_action: bool,
    pub has_skill: bool,
    pub has_script: bool,
    pub has_path: bool,
}

/// The operation that a call asks for.
#[derive(Debug, Clone, Copy, PartialEq, Eq, Structural)]
pub enum Route {
    /// Install, remove, search or list skills.
    Marketplace,
    /// Read a file of a skill.
    ReadSkillFile,
    /// Run a script of a skill.
    RunSkillScript,
    /// Invoke the skill that the tool's name names.
    Invocation,
    /// A tool that this program does not have.
    Unknown,
    /// No name was given and the arguments fit no tool.
    Undetermined,
}

/// The operation for a tool's name.
pub open spec fn route_by_name(tool: Seq<char>) -> Route {
    if tool == "skill_marketplace"@ {
        Route::Marketplace
    } else if tool == "read_skill_file"@ {
        Route::ReadSkillFile
    } else if tool == "run_skill_script"@ {
        Route::RunSkillScript
    } else if "skill_"@.is_prefix_of(tool) {
        Route::Invocation
    } else {
        Route::Unknown
    }
}

/// The operation that the arguments alone point to.
pub open spec fn route_by_shape(shape: ArgShape) -> Route {
    if shape.has_action {
        Route::Marketplace
    } else if shape.has_script && shape.has_skill {
        Route::RunSkillScript
    } else if shape.has_path && shape.has_skill {
        Route::ReadSkillFile
    } else {
        Route::Undetermined
    }
}

/// The operation for a call: by the tool's name where there is one, else by
/// the arguments.
pub open spec fn route_of(tool: Seq<char>, shape: ArgShape) -> Route {
    if tool.len() == 0 {
        route_by_shape(shape)
    } else {
        route_by_name(tool)
    }
}

/// The operation that a call asks for. `tool_name` is empty where the host
/// gave none.
pub fn route(tool_name: &str, shape: ArgShape) -> (r: Route)
    ensures
        r == route_of(tool_name@, shape),
{
    if tool_name.unicode_len() == 0 {
        if shape.has_action {
            Route::Marketplace
        } else if shape.has_script && shape.has_skill {
            Route::RunSkillScript
        } else if shape.has_path && shape.has_skill {
            Route::ReadSkillFile
        } else {
            Route::Undetermined
        }
    } else if same_text(tool_name, "skill_marketplace") {
        Route::Marketplace
    } else if same_text(tool_name, "read_skill_file") {
        Route::ReadSkillFile
    } else if same_text(tool_name, "run_skill_script") {
        Route::RunSkillScript
    } else {
        let v = to_chars(tool_name);
        let p = to_chars("skill_");
        if starts_with(&v, &p) {
            Route::Invocation
        } else {
            Route::Unknown
        }
    }
}

/// The hooks that the host calls.
#[derive(Debug, Clone, Copy, PartialEq, Eq, Structural)]
pub enum Hook {
    /// A session starts.
    OnStart,
    /// The system prompt was built.
    PostSystemPrompt,
    /// A tool is about to be called.
    PreTool,
    /// A hook that this program has nothing to say to.
    Other,
}

/// The hook of the given name.
pub open spec fn hook_of(name: Seq<char>) -> Hook {
    if name == "on_start"@ {
        Hook::OnStart
    } else if name == "post_system_prompt"@ {
        Hook::PostSystemPrompt
    } else if name == "pre_tool"@ {
        Hook::PreTool
    } else {
        Hook::Other
    }
}

/// The hook of the given name.
pub fn hook_named(name: &str) -> (r: Hook)
    ensures
        r == hook_of(name@),
{
    if same_text(name, "on_start") {
        Hook::OnStart
    } else if same_text(name, "post_system_prompt") {
        Hook::PostSystemPrompt
    } else if same_text(name, "pre_tool") {
        Hook::PreTool
    } else {
        Hook::Other
    }
}

/// What one run of the program is for.
#[derive(Debug, Clone, Copy, PartialEq, Eq, Structural)]
pub enum Mode {
    /// Describe the tools.
    Schema,
    /// Answer a hook.
    Hook(Hook),
    /// Serve the command line.
    Cli,
    /// Serve a tool call.
    ToolCall,
}

/// What a run is for, given the first argument after the program's name and
/// the hook that the host named, each where there is one. The request for
/// the schema comes first, then the hook, then the command line.
pub open spec fn mode_of(first_arg: Option<Seq<char>>, hook: Option<Seq<char>>) -> Mode {
    if first_arg == Some("--schema"@) {
        Mode::Schema
    } else if hook is Some {
        Mode::Hook(hook_of(hook.unwrap()))
    } else if first_arg is Some {
        Mode::Cli
    } else {
        Mode::ToolCall
    }
}

/// What a run is for.
pub fn select_mode(first_arg: Option<&str>, hook: Option<&str>) -> (r: Mode)
    ensures
        r == mode_of(
            match first_arg {
                Some(a) => Some(a@),
                None => None,
            },
            match hook {
                Some(h) => Some(h@),
                None => None,
            },
        ),
{
    match first_arg {
        Some(a) => {
            if same_text(a, "--schema") {
                return Mode::Schema;
            }
        },
        None => {},
    }
    match hook {
        Some(h) => Mode::Hook(hook_named(h)),
        None => match first_arg {
            Some(_) => Mode::Cli,
            None => Mode::ToolCall,
        },
    }
}

} // verus!
