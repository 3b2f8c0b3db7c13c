//! How a script of a skill is run: directly where its file is executable,
//! else through the interpreter that its extension names; and what is
//! reported of its run.

use crate::access::ResolvedPath;
use crate::paths::{same_bytes, ComponentPath};
use crate::text::{decimal, join, joined, push_decimal, texts};
use vstd::prelude::*;
use vstd::string::*;

verus! {

/// The ways to run a script that is not executable by itself.
#[derive(Debug, Clone, Copy, PartialEq, Eq, Structural)]
pub enum Interpreter {
    /// `python3`, for `.py`.
    Python,
    /// `bash`, for `.sh`.
    Shell,
    /// `node`, for `.js`.
    Node,
    /// No interpreter: the file itself is the program.
    Direct,
}

/// The index of the last `b` in `s`, or -1 where it holds none.
pub open spec fn last_index(s: Seq<u8>, b: u8) -> int
    decreases s.len(),
{
    if s.len() == 0 {
        -1
    } else if s.last() == b {
        s.len() - 1
    } else {
        last_index(s.drop_last(), b)
    }
}

/// The extension of a file's name: what follows its last dot. A name
/// without a dot has none, nor has one whose only dot is its first byte,
/// nor the name `..`.
pub open spec fn extension(file_name: Seq<u8>) -> Option<Seq<u8>> {
    let i = last_index(file_name, 46u8);
    if i <= 0 || file_name == seq![46u8, 46u8] {
        None
    } else {
        Some(file_name.skip(i + 1))
    }
}

/// The interpreter that a file's name asks for.
pub open spec fn interpreter_for(file_name: Seq<u8>) -> Interpreter {
    let e = extension(file_name);
    if e == Some(seq![112u8, 121u8]) {
        Interpreter::Python
    } else if e == Some(seq![115u8, 104u8]) {
        Interpreter::Shell
    } else if e == Some(seq![106u8, 115u8]) {
        Interpreter::Node
    } else {
        Interpreter::Direct
    }
}

/// The program that stands for an interpreter; none for `Direct`.
pub open spec fn program_of(i: Interpreter) -> Option<Seq<char>> {
    match i {
        Interpreter::Python => Some("python3"@),
        Interpreter::Shell => Some("bash"@),
        Interpreter::Node => Some("node"@),
        Interpreter::Direct => None,
    }
}

/// The extension of a file's name.
pub fn extension_of(file_name: &Vec<u8>) -> (r: Option<Vec<u8>>)
    ensures
        match r {
            Some(e) => extension(file_name@) == Some(e@),
            None => extension(file_name@) is None,
        },
{
    let n: usize = file_name.len();
    let mut i: usize = n;
    assert(file_name@.take(n as int) == file_name@);
    while i > 0 && file_name[i - 1] != 46u8
        invariant
            i <= n == file_name.len(),
            last_index(file_name@, 46u8) == last_index(file_name@.take(i as int), 46u8),
        decreases i,
    {
        assert(file_name@.take(i as int).drop_last() == file_name@.take(i - 1));
        i -= 1;
    }
    let dots: Vec<u8> = vec![46u8, 46u8];
    assert(dots@ =~= seq![46u8, 46u8]);
    if i <= 1 || same_bytes(file_name, &dots) {
        return None;
    }
    let mut e: Vec<u8> = Vec::new();
    let mut k: usize = i;
    while k < n
        invariant
            i <= k <= n == file_name.len(),
            e@ == file_name@.subrange(i as int, k as int),
        decreases n - k,
    {
        e.push(file_name[k]);
        k += 1;
        assert(file_name@.subrange(i as int, k as int) == file_name@.subrange(i as int, k - 1).push(
            file_name@[k - 1],
        ));
    }
    assert(file_name@.skip(i as int) == file_name@.subrange(i as int, n as int));
    Some(e)
}

impl Interpreter {
    /// The interpreter that a file's name asks for, by its extension.
    pub fn for_file_name(file_name: &Vec<u8>) -> (r: Interpreter)
        ensures
            r == interpreter_for(file_name@),
    {
        let e = match extension_of(file_name) {
            Some(e) => e,
            None => {
                return Interpreter::Direct;
            },
        };
        let py: Vec<u8> = vec![112u8, 121u8];
        let sh: Vec<u8> = vec![115u8, 104u8];
        let js: Vec<u8> = vec![106u8, 115u8];
        assert(py@ =~= seq![112u8, 121u8]);
        assert(sh@ =~= seq![115u8, 104u8]);
        assert(js@ =~= seq![106u8, 115u8]);
        if same_bytes(&e, &py) {
            Interpreter::Python
        } else if same_bytes(&e, &sh) {
            Interpreter::Shell
        } else if same_bytes(&e, &js) {
            Interpreter::Node
        } else {
            Interpreter::Direct
        }
    }

    /// The program that stands for this interpreter; none for `Direct`.
    pub fn program(&self) -> (r: Option<&'static str>)
        ensures
            match r {
                Some(p) => program_of(*self) == Some(p@),
                None => program_of(*self) is None,
            },
    {
        match self {
            Interpreter::Python => Some("python3"),
            Interpreter::Shell => Some("bash"),
            Interpreter::Node => Some("node"),
            Interpreter::Direct => None,
        }
    }
}

/// Whether a file with the permission bits `mode` may be executed: by its
/// owner, its group or anyone else.
pub fn has_execute_bit(mode: u32) -> (b: bool)
    ensures
        b == (mode & 0o111 != 0),
{
    mode & 0o111 != 0
}

/// How a script is started: the program, its arguments, and the directory
/// it runs in.
#[derive(Debug, Clone)]
pub struct Launch {
    pub program: String,
    pub args: Vec<String>,
    pub working_dir: ComponentPath,
}

/// The interpreter that runs the file at `target`: none where the file is
/// executable, else the one that its name asks for.
pub open spec fn chosen_interpreter(target: Seq<Seq<u8>>, executable: bool) -> Interpreter {
    if executable || target.len() == 0 {
        Interpreter::Direct
    } else {
        interpreter_for(target.last())
    }
}

/// The program started for a script: the interpreter's, or the script
/// itself.
pub open spec fn launch_program(script: Seq<char>, interpreter: Interpreter) -> Seq<char> {
    match program_of(interpreter) {
        Some(p) => p,
        None => script,
    }
}

/// The arguments of the program started: the caller's, after the script's
/// path where an interpreter runs it.
pub open spec fn launch_args(
    script: Seq<char>,
    interpreter: Interpreter,
    args: Seq<Seq<char>>,
) -> Seq<Seq<char>> {
    if interpreter == Interpreter::Direct {
        args
    } else {
        seq![script] + args
    }
}

/// Decides how the script at `resolved` is started. `script` is its path as
/// text, `executable` says whether its file may be executed, and
/// `script_args` are the caller's arguments. The script runs in the skill's
/// directory.
pub fn plan_launch(
    resolved: &ResolvedPath,
    script: &str,
    executable: bool,
    script_args: Vec<String>,
) -> (l: Launch)
    ensures
        l.program@ == launch_program(
            script@,
            chosen_interpreter(resolved.target_view(), executable),
        ),
        texts(l.args@) == launch_args(
            script@,
            chosen_interpreter(resolved.target_view(), executable),
            texts(script_args@),
        ),
        l.working_dir@ == resolved.root_view(),
{
    let target = resolved.target();
    let n: usize = target.parts.len();
    let interpreter = if executable || n == 0 {
        Interpreter::Direct
    } else {
        assert(target@.last() == target.parts@[n - 1]@);
        Interpreter::for_file_name(&target.parts[n - 1])
    };
    let working_dir = resolved.root().duplicate();
    match interpreter.program() {
        Some(p) => {
            let mut args = script_args;
            let first = script.to_owned();
            args.insert(0, first);
            assert(texts(args@) =~= seq![script@] + texts(script_args@));
            Launch { program: p.to_owned(), args, working_dir }
        },
        None => Launch { program: script.to_owned(), args: script_args, working_dir },
    }
}

/// A script that is not executable and whose extension names an interpreter
/// is started through that interpreter, with the script's path as the first
/// argument and the caller's arguments after it.
pub proof fn lemma_interpreted_launch(
    target: Seq<Seq<u8>>,
    script: Seq<char>,
    args: Seq<Seq<char>>,
)
    requires
        target.len() > 0,
        interpreter_for(target.last()) != Interpreter::Direct,
    ensures
        Some(launch_program(script, chosen_interpreter(target, false))) == program_of(
            interpreter_for(target.last()),
        ),
        launch_args(script, chosen_interpreter(target, false), args) == seq![script] + args,
        launch_args(script, chosen_interpreter(target, false), args)[0] == script,
{
}

/// An executable script is started directly, whatever its extension: it is
/// the program, and the arguments are the caller's.
pub proof fn lemma_executable_launch(
    target: Seq<Seq<u8>>,
    script: Seq<char>,
    args: Seq<Seq<char>>,
)
    ensures
        launch_program(script, chosen_interpreter(target, true)) == script,
        launch_args(script, chosen_interpreter(target, true), args) == args,
{
}

/// How a script's run ended: whether it succeeded, and its exit code where
/// it has one.
#[derive(Debug, Clone, Copy, PartialEq, Eq, Structural)]
pub struct Exit {
    pub success: bool,
    pub code: Option<i32>,
}

/// The line that reports a failed run: the exit code, or -1 where there is
/// none.
pub open spec fn exit_marker(code: Option<i32>) -> Seq<char> {
    "[exit code: "@ + decimal(
        match code {
            Some(c) => c as int,
            None => -1,
        },
    ) + "]"@
}

/// The parts of a report: what the script wrote, what it wrote as errors
/// under a heading, and the exit marker of a failed run; each only where
/// there is something to say.
pub open spec fn report_parts(stdout: Seq<char>, stderr: Seq<char>, exit: Exit) -> Seq<Seq<char>> {
    (if stdout.len() > 0 {
        seq![stdout]
    } else {
        Seq::empty()
    }) + (if stderr.len() > 0 {
        seq!["[stderr]\n"@ + stderr]
    } else {
        Seq::empty()
    }) + (if !exit.success {
        seq![exit_marker(exit.code)]
    } else {
        Seq::empty()
    })
}

/// The report of a run: its parts, one per line, or a note that there was
/// no output.
pub open spec fn report(stdout: Seq<char>, stderr: Seq<char>, exit: Exit) -> Seq<char> {
    let parts = report_parts(stdout, stderr, exit);
    if parts.len() == 0 {
        "(no output)"@
    } else {
        joined(parts, "\n"@)
    }
}

/// The report of a script's run. A run that failed is reported, with its
/// exit code; it is no failure of the report.
pub fn render_output(stdout: &str, stderr: &str, exit: Exit) -> (s: String)
    ensures
        s@ == report(stdout@, stderr@, exit),
{
    let mut parts: Vec<String> = Vec::new();
    assert(texts(parts@) =~= Seq::<Seq<char>>::empty());
    if stdout.unicode_len() > 0 {
        parts.push(stdout.to_owned());
        assert(texts(parts@) =~= seq![stdout@]);
    }
    let ghost first = texts(parts@);
    if stderr.unicode_len() > 0 {
        let mut part = "[stderr]\n".to_owned();
        part.append(stderr);
        parts.push(part);
        assert(texts(parts@) =~= first + seq!["[stderr]\n"@ + stderr@]);
    } else {
        assert(texts(parts@) =~= first + Seq::<Seq<char>>::empty());
    }
    let ghost second = texts(parts@);
    if !exit.success {
        let mut part = "[exit code: ".to_owned();
        let code: i32 = match exit.code {
            Some(c) => c,
            None => -1,
        };
        push_decimal(code, &mut part);
        part.append("]");
        parts.push(part);
        assert(texts(parts@) =~= second + seq![exit_marker(exit.code)]);
    } else {
        assert(texts(parts@) =~= second + Seq::<Seq<char>>::empty());
    }
    if parts.len() == 0 {
        "(no output)".to_owned()
    } else {
        join(&parts, "\n")
    }
}

/// The report of a failed run ends with the exit marker.
pub proof fn lemma_failed_run_is_marked(stdout: Seq<char>, stderr: Seq<char>, exit: Exit)
    requires
        !exit.success,
    ensures
        exit_marker(exit.code).is_suffix_of(report(stdout, stderr, exit)),
{
    let parts = report_parts(stdout, stderr, exit);
    let m = exit_marker(exit.code);
    assert(parts.last() == m);
    let r = report(stdout, stderr, exit);
    if parts.len() == 1 {
        assert(r.subrange(r.len() - m.len(), r.len() as int) =~= m);
    } else {
        assert(r == joined(parts.drop_last(), "\n"@) + "\n"@ + m);
        assert(r.subrange(r.len() - m.len(), r.len() as int) =~= m);
    }
}

} // verus!
