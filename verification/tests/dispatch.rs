use agent_skills::access::{resolve, Probe, ResolvedPath};
use agent_skills::dispatch::{
    extension_of, has_execute_bit, plan_launch, render_output, Exit, Interpreter,
};
use agent_skills::paths::ComponentPath;

fn path(parts: &[&str]) -> ComponentPath {
    ComponentPath { parts: parts.iter().map(|p| p.as_bytes().to_vec()).collect() }
}

fn resolved(file: &str) -> ResolvedPath {
    resolve(Probe {
        root_exists: true,
        canonical_root: Some(path(&["/", "skills", "pdf"])),
        canonical_target: Some(path(&["/", "skills", "pdf", "scripts", file])),
    })
    .unwrap()
}

fn args(a: &[&str]) -> Vec<String> {
    a.iter().map(|s| s.to_string()).collect()
}

fn ok() -> Exit {
    Exit { success: true, code: Some(0) }
}

#[test]
fn extension_names_the_interpreter() {
    assert_eq!(Interpreter::for_file_name(&b"run.py".to_vec()), Interpreter::Python);
    assert_eq!(Interpreter::for_file_name(&b"run.sh".to_vec()), Interpreter::Shell);
    assert_eq!(Interpreter::for_file_name(&b"run.js".to_vec()), Interpreter::Node);
    assert_eq!(Interpreter::for_file_name(&b"a.tar.py".to_vec()), Interpreter::Python);
    assert_eq!(Interpreter::for_file_name(&b".hidden.sh".to_vec()), Interpreter::Shell);
}

#[test]
fn other_names_have_no_interpreter() {
    assert_eq!(Interpreter::for_file_name(&b"run.rb".to_vec()), Interpreter::Direct);
    assert_eq!(Interpreter::for_file_name(&b"run".to_vec()), Interpreter::Direct);
    assert_eq!(Interpreter::for_file_name(&b"py".to_vec()), Interpreter::Direct);
    assert_eq!(Interpreter::for_file_name(&b".py".to_vec()), Interpreter::Direct);
    assert_eq!(Interpreter::for_file_name(&b"run.PY".to_vec()), Interpreter::Direct);
    assert_eq!(Interpreter::for_file_name(&b"run.py.".to_vec()), Interpreter::Direct);
    assert_eq!(Interpreter::for_file_name(&b"run.pyc".to_vec()), Interpreter::Direct);
    assert_eq!(Interpreter::for_file_name(&b"run.p".to_vec()), Interpreter::Direct);
    assert_eq!(Interpreter::for_file_name(&b"..".to_vec()), Interpreter::Direct);
    assert_eq!(Interpreter::for_file_name(&b"".to_vec()), Interpreter::Direct);
}

#[test]
fn interpreters_have_their_programs() {
    assert_eq!(Interpreter::Python.program(), Some("python3"));
    assert_eq!(Interpreter::Shell.program(), Some("bash"));
    assert_eq!(Interpreter::Node.program(), Some("node"));
    assert_eq!(Interpreter::Direct.program(), None);
}

#[test]
fn script_without_executable_bit_runs_through_its_interpreter() {
    let l = plan_launch(&resolved("extract.py"), "/skills/pdf/scripts/extract.py", false, args(&["a", "b"]));
    assert_eq!(l.program, "python3");
    assert_eq!(l.args, args(&["/skills/pdf/scripts/extract.py", "a", "b"]));
    assert_eq!(l.working_dir, path(&["/", "skills", "pdf"]));
    let l = plan_launch(&resolved("run.sh"), "/skills/pdf/scripts/run.sh", false, args(&[]));
    assert_eq!(l.program, "bash");
    assert_eq!(l.args, args(&["/skills/pdf/scripts/run.sh"]));
    let l = plan_launch(&resolved("x.js"), "/s/x.js", false, args(&["--flag"]));
    assert_eq!(l.program, "node");
    assert_eq!(l.args, args(&["/s/x.js", "--flag"]));
}

#[test]
fn executable_script_runs_directly() {
    let l = plan_launch(&resolved("extract.py"), "/skills/pdf/scripts/extract.py", true, args(&["a"]));
    assert_eq!(l.program, "/skills/pdf/scripts/extract.py");
    assert_eq!(l.args, args(&["a"]));
    assert_eq!(l.working_dir, path(&["/", "skills", "pdf"]));
}

#[test]
fn unknown_extension_runs_directly() {
    let l = plan_launch(&resolved("tool.bin"), "/skills/pdf/scripts/tool.bin", false, args(&["a"]));
    assert_eq!(l.program, "/skills/pdf/scripts/tool.bin");
    assert_eq!(l.args, args(&["a"]));
}

#[test]
fn a_path_without_components_runs_directly() {
    let r = resolve(Probe {
        root_exists: true,
        canonical_root: Some(ComponentPath::new()),
        canonical_target: Some(ComponentPath::new()),
    })
    .unwrap();
    let l = plan_launch(&r, "x.py", false, args(&[]));
    assert_eq!(l.program, "x.py");
    assert!(l.args.is_empty());
}

#[test]
fn output_is_reported_as_written() {
    assert_eq!(render_output("hello\n", "", ok()), "hello\n");
}

#[test]
fn errors_are_reported_under_a_heading() {
    assert_eq!(render_output("out", "warn", ok()), "out\n[stderr]\nwarn");
    assert_eq!(render_output("", "warn", ok()), "[stderr]\nwarn");
}

#[test]
fn failed_run_carries_an_exit_marker() {
    assert_eq!(render_output("out", "", Exit { success: false, code: Some(2) }), "out\n[exit code: 2]");
    assert_eq!(
        render_output("out", "err", Exit { success: false, code: Some(127) }),
        "out\n[stderr]\nerr\n[exit code: 127]"
    );
    assert_eq!(render_output("", "", Exit { success: false, code: Some(1) }), "[exit code: 1]");
}

#[test]
fn run_without_exit_code_reports_minus_one() {
    assert_eq!(render_output("", "", Exit { success: false, code: None }), "[exit code: -1]");
}

#[test]
fn exit_codes_are_written_in_decimal() {
    assert_eq!(render_output("", "", Exit { success: false, code: Some(-15) }), "[exit code: -15]");
    assert_eq!(
        render_output("", "", Exit { success: false, code: Some(i32::MAX) }),
        "[exit code: 2147483647]"
    );
    assert_eq!(
        render_output("", "", Exit { success: false, code: Some(i32::MIN) }),
        "[exit code: -2147483648]"
    );
    assert_eq!(render_output("", "", Exit { success: false, code: Some(100) }), "[exit code: 100]");
}

#[test]
fn silent_run_says_so() {
    assert_eq!(render_output("", "", ok()), "(no output)");
    assert_eq!(render_output("", "", Exit { success: true, code: None }), "(no output)");
}

#[test]
fn extension_follows_the_last_dot() {
    assert_eq!(extension_of(&b"run.py".to_vec()), Some(b"py".to_vec()));
    assert_eq!(extension_of(&b"a.tar.gz".to_vec()), Some(b"gz".to_vec()));
    assert_eq!(extension_of(&b"name.".to_vec()), Some(Vec::new()));
    assert_eq!(extension_of(&b".hidden.txt".to_vec()), Some(b"txt".to_vec()));
    assert_eq!(extension_of(&b"..a".to_vec()), Some(b"a".to_vec()));
    assert_eq!(extension_of(&b"...".to_vec()), Some(Vec::new()));
}

#[test]
fn some_names_have_no_extension() {
    assert_eq!(extension_of(&b"run".to_vec()), None);
    assert_eq!(extension_of(&b".hidden".to_vec()), None);
    assert_eq!(extension_of(&b".".to_vec()), None);
    assert_eq!(extension_of(&b"..".to_vec()), None);
    assert_eq!(extension_of(&b"".to_vec()), None);
}

#[test]
fn extension_agrees_with_std() {
    for name in ["run.py", "a.tar.gz", "name.", ".hidden.txt", "run", ".hidden", "..a", "...", "x.y.z"] {
        let expected = std::path::Path::new(name).extension().map(|e| e.as_encoded_bytes().to_vec());
        assert_eq!(extension_of(&name.as_bytes().to_vec()), expected, "{}", name);
    }
}

#[test]
fn any_execute_bit_makes_a_file_executable() {
    assert!(has_execute_bit(0o755));
    assert!(has_execute_bit(0o100));
    assert!(has_execute_bit(0o010));
    assert!(has_execute_bit(0o001));
    assert!(has_execute_bit(0o100644 | 0o100));
    assert!(has_execute_bit(u32::MAX));
}

#[test]
fn without_an_execute_bit_a_file_is_not_executable() {
    assert!(!has_execute_bit(0o644));
    assert!(!has_execute_bit(0o100644));
    assert!(!has_execute_bit(0o666));
    assert!(!has_execute_bit(0));
    assert!(!has_execute_bit(0o7000));
}
