use agent_skills::catalog::{insert_skill, is_skill_dir, list_skills, name_lt, CatalogEntry};
use agent_skills::definition::Skill;

fn entry(dir: &str, is_dir: bool, definition: Option<&str>) -> CatalogEntry {
    CatalogEntry {
        name: dir.to_string(),
        is_dir,
        definition: definition.map(|d| d.to_string()),
    }
}

fn text(name: &str) -> String {
    format!("---\nname: {}\ndescription: About {}\n---\nBody of {}\n", name, name, name)
}

fn names(skills: &[Skill]) -> Vec<String> {
    skills.iter().map(|s| s.name.clone()).collect()
}

#[test]
fn catalog_is_sorted_by_name() {
    let entries = vec![
        entry("c", true, Some(&text("zeta"))),
        entry("a", true, Some(&text("alpha"))),
        entry("b", true, Some(&text("mid-1"))),
        entry("d", true, Some(&text("mid"))),
    ];
    let skills = list_skills(&entries);
    assert_eq!(names(&skills), vec!["alpha", "mid", "mid-1", "zeta"]);
    assert_eq!(skills[0].description, "About alpha");
    assert_eq!(skills[3].body, "Body of zeta");
}

#[test]
fn catalog_skips_what_is_no_skill() {
    let entries = vec![
        entry("file.txt", false, Some(&text("file"))),
        entry(".hidden", true, Some(&text("hidden"))),
        entry("empty", true, None),
        entry("broken", true, Some("no metadata")),
        entry("bad-name", true, Some(&text("Bad_Name"))),
        entry("good", true, Some(&text("good"))),
    ];
    let skills = list_skills(&entries);
    assert_eq!(names(&skills), vec!["good"]);
}

#[test]
fn catalog_of_nothing_is_empty() {
    assert!(list_skills(&Vec::new()).is_empty());
    assert!(list_skills(&vec![entry(".git", true, None)]).is_empty());
}

#[test]
fn catalog_is_the_same_when_listed_twice() {
    let entries = vec![
        entry("x", true, Some(&text("b"))),
        entry("y", true, Some(&text("a"))),
        entry("z", true, Some(&text("c"))),
    ];
    let first = list_skills(&entries);
    let second = list_skills(&entries);
    assert_eq!(names(&first), names(&second));
    assert_eq!(names(&first), vec!["a", "b", "c"]);
    for i in 0..first.len() {
        assert_eq!(first[i].description, second[i].description);
        assert_eq!(first[i].body, second[i].body);
        assert_eq!(first[i].allowed_tools, second[i].allowed_tools);
    }
}

#[test]
fn catalog_does_not_depend_on_the_order_of_entries() {
    let forward = vec![
        entry("1", true, Some(&text("one"))),
        entry("2", true, Some(&text("two"))),
        entry("3", true, Some(&text("three"))),
    ];
    let backward = vec![
        entry("3", true, Some(&text("three"))),
        entry("2", true, Some(&text("two"))),
        entry("1", true, Some(&text("one"))),
    ];
    assert_eq!(names(&list_skills(&forward)), vec!["one", "three", "two"]);
    assert_eq!(names(&list_skills(&backward)), vec!["one", "three", "two"]);
}

#[test]
fn skills_of_one_name_keep_their_order() {
    let first = "---\nname: same\ndescription: first\n---\n";
    let second = "---\nname: same\ndescription: second\n---\n";
    let skills = list_skills(&vec![
        entry("a", true, Some(second)),
        entry("b", true, Some(&text("other"))),
        entry("c", true, Some(first)),
    ]);
    assert_eq!(names(&skills), vec!["other", "same", "same"]);
    assert_eq!(skills[1].description, "second");
    assert_eq!(skills[2].description, "first");
}

#[test]
fn hidden_entries_and_files_hold_no_skill() {
    assert!(is_skill_dir("pdf", true));
    assert!(is_skill_dir("", true));
    assert!(is_skill_dir("a.b", true));
    assert!(!is_skill_dir(".tmp_pdf", true));
    assert!(!is_skill_dir(".", true));
    assert!(!is_skill_dir("pdf", false));
}

#[test]
fn names_compare_by_their_characters() {
    assert!(name_lt("a", "b"));
    assert!(!name_lt("b", "a"));
    assert!(!name_lt("a", "a"));
    assert!(name_lt("", "a"));
    assert!(!name_lt("a", ""));
    assert!(!name_lt("", ""));
    assert!(name_lt("ab", "abc"));
    assert!(name_lt("a-b", "a0"));
    assert!(name_lt("a9", "aa"));
    assert!(name_lt("Z", "a"));
    assert!(name_lt("z", "\u{e9}"));
}

#[test]
fn insertion_keeps_the_order() {
    let make = |n: &str, d: &str| Skill {
        name: n.to_string(),
        description: d.to_string(),
        body: String::new(),
        allowed_tools: None,
    };
    let mut skills: Vec<Skill> = Vec::new();
    insert_skill(&mut skills, make("m", "1"));
    insert_skill(&mut skills, make("a", "2"));
    insert_skill(&mut skills, make("z", "3"));
    insert_skill(&mut skills, make("m", "4"));
    assert_eq!(names(&skills), vec!["a", "m", "m", "z"]);
    assert_eq!(skills[1].description, "1");
    assert_eq!(skills[2].description, "4");
}
