use agent_skills::paths::{copy_bytes, same_bytes, skills_dir, state_file, ComponentPath};

fn path(parts: &[&str]) -> ComponentPath {
    ComponentPath { parts: parts.iter().map(|p| p.as_bytes().to_vec()).collect() }
}

#[test]
fn skills_are_kept_below_the_program() {
    assert_eq!(skills_dir(&path(&["/", "opt", "plug"])), path(&["/", "opt", "plug", "skills"]));
    assert_eq!(skills_dir(&path(&["."])), path(&[".", "skills"]));
}

#[test]
fn the_record_is_kept_below_the_program() {
    assert_eq!(state_file(&path(&["/", "opt", "plug"])), path(&["/", "opt", "plug", ".active_skill.json"]));
}

#[test]
fn child_adds_one_component() {
    let base = path(&["a"]);
    assert_eq!(base.child("b"), path(&["a", "b"]));
    assert_eq!(base, path(&["a"]));
    assert_eq!(ComponentPath::new().child("caf\u{e9}").parts, vec!["caf\u{e9}".as_bytes().to_vec()]);
}

#[test]
fn duplicate_is_equal() {
    let p = path(&["/", "x", "y"]);
    assert_eq!(p.duplicate(), p);
    assert_eq!(ComponentPath::new().duplicate().parts.len(), 0);
}

#[test]
fn prefix_is_by_whole_components() {
    assert!(path(&["a", "b", "c"]).starts_with(&path(&["a", "b"])));
    assert!(path(&["a", "b"]).starts_with(&path(&["a", "b"])));
    assert!(path(&["a", "b"]).starts_with(&ComponentPath::new()));
    assert!(!path(&["a", "bc"]).starts_with(&path(&["a", "b"])));
    assert!(!path(&["a"]).starts_with(&path(&["a", "b"])));
    assert!(!path(&["x", "b"]).starts_with(&path(&["a", "b"])));
}

#[test]
fn bytes_are_compared_and_copied() {
    assert!(same_bytes(&vec![1, 2, 3], &vec![1, 2, 3]));
    assert!(!same_bytes(&vec![1, 2, 3], &vec![1, 2]));
    assert!(!same_bytes(&vec![1, 2, 3], &vec![1, 2, 4]));
    assert!(same_bytes(&Vec::new(), &Vec::new()));
    assert_eq!(copy_bytes(&vec![9, 8, 7]), vec![9, 8, 7]);
}
