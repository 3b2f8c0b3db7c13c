use agent_skills::definition::{
    build_skill, check_skill, is_valid_description, is_valid_name, parse_frontmatter, parse_skill,
    DefinitionError,
};

fn definition(name: &str, description: &str) -> String {
    format!("---\nname: {}\ndescription: {}\n---\nBody.\n", name, description)
}

#[test]
fn reads_a_full_definition() {
    let text = "---\nname: pdf-extract\ndescription: Extract text from PDF files\nallowed-tools: Read, Bash(pdftotext:*)\n---\n\n# PDF\n\nRun the tool.\n\n";
    let skill = parse_skill(text).unwrap();
    assert_eq!(skill.name, "pdf-extract");
    assert_eq!(skill.description, "Extract text from PDF files");
    assert_eq!(skill.body, "# PDF\n\nRun the tool.");
    assert_eq!(skill.allowed_tools, Some("Read, Bash(pdftotext:*)".to_string()));
}

#[test]
fn allow_list_is_optional() {
    let skill = parse_skill("---\nname: notes\ndescription: Take notes\n---\nWrite.").unwrap();
    assert_eq!(skill.name, "notes");
    assert_eq!(skill.body, "Write.");
    assert_eq!(skill.allowed_tools, None);
}

#[test]
fn text_without_metadata_block_is_no_skill() {
    assert!(parse_skill("").is_none());
    assert!(parse_skill("# Just a document\n").is_none());
    assert!(parse_skill("name: x\ndescription: y\n").is_none());
    assert!(parse_skill(" ---\nname: x\ndescription: y\n---\n").is_none());
    assert!(parse_skill("--\nname: x\ndescription: y\n---\n").is_none());
}

#[test]
fn unclosed_metadata_block_is_no_skill() {
    assert!(parse_skill("---\nname: x\ndescription: y\n").is_none());
    assert!(parse_skill("---").is_none());
    assert!(parse_frontmatter("---\nname: x\n--").is_none());
}

#[test]
fn missing_required_key_is_no_skill() {
    assert!(parse_skill("---\nname: x\n---\nBody").is_none());
    assert!(parse_skill("---\ndescription: y\n---\nBody").is_none());
    assert!(parse_skill("---\nallowed-tools: Read\n---\nBody").is_none());
}

#[test]
fn name_outside_the_alphabet_is_no_skill() {
    assert!(parse_skill(&definition("Pdf", "d")).is_none());
    assert!(parse_skill(&definition("pdf_extract", "d")).is_none());
    assert!(parse_skill(&definition("pdf extract", "d")).is_none());
    assert!(parse_skill(&definition("pdf.extract", "d")).is_none());
    assert!(parse_skill(&definition("caf\u{e9}", "d")).is_none());
    assert!(parse_skill(&definition("a-1-b", "d")).is_some());
}

#[test]
fn name_length_is_bounded() {
    let longest = "a".repeat(64);
    let too_long = "a".repeat(65);
    assert_eq!(parse_skill(&definition(&longest, "d")).unwrap().name, longest);
    assert!(parse_skill(&definition(&too_long, "d")).is_none());
    assert!(parse_skill("---\nname: \"\"\ndescription: d\n---\nBody").is_none());
}

#[test]
fn description_length_is_bounded() {
    let longest = "d".repeat(1024);
    let too_long = "d".repeat(1025);
    assert_eq!(parse_skill(&definition("x", &longest)).unwrap().description, longest);
    assert!(parse_skill(&definition("x", &too_long)).is_none());
}

#[test]
fn description_length_counts_characters() {
    let wide = "\u{e9}".repeat(1024);
    assert_eq!(parse_skill(&definition("x", &wide)).unwrap().description, wide);
    let too_wide = "\u{e9}".repeat(1025);
    assert!(parse_skill(&definition("x", &too_wide)).is_none());
}

#[test]
fn values_that_are_no_strings_count_as_missing() {
    assert!(parse_skill("---\nname: 123\ndescription: d\n---\nBody").is_none());
    assert!(parse_skill("---\nname: x\ndescription: [a, b]\n---\nBody").is_none());
    let skill = parse_skill("---\nname: x\ndescription: d\nallowed-tools:\n  - Read\n---\nBody").unwrap();
    assert_eq!(skill.allowed_tools, None);
}

#[test]
fn metadata_that_is_no_mapping_is_no_skill() {
    assert!(parse_skill("---\n- name\n- description\n---\nBody").is_none());
    assert!(parse_skill("---\njust text\n---\nBody").is_none());
    assert!(parse_skill("---\nname: [unclosed\n---\nBody").is_none());
}

#[test]
fn frontmatter_holds_the_three_keys() {
    let m = parse_frontmatter("---\nname: x\nallowed-tools: Grep\nother: 1\n---\n").unwrap();
    assert_eq!(m.name, Some("x".to_string()));
    assert_eq!(m.description, None);
    assert_eq!(m.allowed_tools, Some("Grep".to_string()));
}

#[test]
fn frontmatter_values_come_from_the_document() {
    let m = parse_frontmatter("---\nname: \"quoted name\"\ndescription: 'it''s'\n---\n").unwrap();
    assert_eq!(m.name, Some("quoted name".to_string()));
    assert_eq!(m.description, Some("it's".to_string()));
}

#[test]
fn body_is_trimmed() {
    let skill = parse_skill("---\nname: x\ndescription: d\n---\n\n\n  Line one\nLine two  \n\n").unwrap();
    assert_eq!(skill.body, "Line one\nLine two");
}

#[test]
fn body_may_be_empty() {
    let skill = parse_skill("---\nname: x\ndescription: d\n---\n").unwrap();
    assert_eq!(skill.body, "");
}

#[test]
fn body_behind_a_closing_marker_at_the_end_is_empty() {
    let skill = parse_skill("---\nname: a\ndescription: d\n---").unwrap();
    assert_eq!(skill.name, "a");
    assert_eq!(skill.description, "d");
    assert_eq!(skill.body, "");
    assert_eq!(skill.allowed_tools, None);
}

#[test]
fn body_needs_no_line_break_right_behind_the_closing_marker() {
    let skill = parse_skill("---\nname: a\ndescription: d\n--- \nBody").unwrap();
    assert_eq!(skill.body, "Body");
    let skill = parse_skill("---\nname: a\ndescription: d\n---\r\nBody\r\n").unwrap();
    assert_eq!(skill.body, "Body");
    let skill = parse_skill("---\nname: a\ndescription: d\n---Body").unwrap();
    assert_eq!(skill.body, "Body");
}

#[test]
fn body_never_holds_the_metadata() {
    for text in [
        "---\nname: a\ndescription: d\n---",
        "---\nname: a\ndescription: d\n---\n",
        "---\nname: a\ndescription: d\n---   ",
    ] {
        assert_eq!(parse_skill(text).unwrap().body, "");
    }
}

#[test]
fn build_without_a_closing_marker_takes_the_whole_text() {
    let skill =
        build_skill("  all of it \n", Some("n".to_string()), Some("d".to_string()), None).unwrap();
    assert_eq!(skill.body, "all of it");
}

#[test]
fn body_follows_the_first_closing_marker_line() {
    let skill = parse_skill("---\nname: x\ndescription: d\n---\nBefore\n---\nAfter").unwrap();
    assert_eq!(skill.body, "Before\n---\nAfter");
}

#[test]
fn build_takes_the_values_as_given() {
    let skill = build_skill(
        "---\nignored\n---\n The body ",
        Some("given".to_string()),
        Some("Given description".to_string()),
        Some("Read".to_string()),
    )
    .unwrap();
    assert_eq!(skill.name, "given");
    assert_eq!(skill.description, "Given description");
    assert_eq!(skill.body, "The body");
    assert_eq!(skill.allowed_tools, Some("Read".to_string()));
}

#[test]
fn build_rejects_missing_and_invalid_values() {
    assert!(build_skill("x", None, Some("d".to_string()), None).is_none());
    assert!(build_skill("x", Some("n".to_string()), None, None).is_none());
    assert!(build_skill("x", Some("N".to_string()), Some("d".to_string()), None).is_none());
    assert!(build_skill("x", Some("".to_string()), Some("d".to_string()), None).is_none());
    assert!(build_skill("x", Some("n".to_string()), Some("d".repeat(1025)), None).is_none());
    assert!(build_skill("x", Some("n".to_string()), Some("".to_string()), None).is_some());
}

#[test]
fn names_are_validated() {
    assert!(is_valid_name("a"));
    assert!(is_valid_name("pdf-extract-2"));
    assert!(is_valid_name("-"));
    assert!(is_valid_name(&"z".repeat(64)));
    assert!(!is_valid_name(""));
    assert!(!is_valid_name(&"z".repeat(65)));
    assert!(!is_valid_name("A"));
    assert!(!is_valid_name("a b"));
    assert!(!is_valid_name("a/b"));
    assert!(!is_valid_name("{"));
    assert!(!is_valid_name("`"));
    assert!(!is_valid_name(":"));
}

#[test]
fn descriptions_are_validated() {
    assert!(is_valid_description(""));
    assert!(is_valid_description(&"x".repeat(1024)));
    assert!(!is_valid_description(&"x".repeat(1025)));
}

#[test]
fn faults_are_told_apart() {
    assert_eq!(check_skill("no block").unwrap_err(), DefinitionError::NoMetadataBlock);
    assert_eq!(check_skill("---\nname: x\n").unwrap_err(), DefinitionError::NoMetadataBlock);
    assert_eq!(check_skill("---\n- a\n---\n").unwrap_err(), DefinitionError::MetadataNotAMapping);
    assert_eq!(check_skill("---\ndescription: d\n---\n").unwrap_err(), DefinitionError::MissingName);
    assert_eq!(check_skill("---\nname: 7\ndescription: d\n---\n").unwrap_err(), DefinitionError::MissingName);
    assert_eq!(check_skill("---\nname: x\n---\n").unwrap_err(), DefinitionError::MissingDescription);
    assert_eq!(check_skill(&definition("X", "d")).unwrap_err(), DefinitionError::InvalidName);
    assert_eq!(check_skill(&definition(&"x".repeat(65), "d")).unwrap_err(), DefinitionError::InvalidName);
    assert_eq!(
        check_skill(&definition("x", &"d".repeat(1025))).unwrap_err(),
        DefinitionError::InvalidDescription
    );
}

#[test]
fn the_first_fault_is_told() {
    assert_eq!(check_skill("---\nother: 1\n---\n").unwrap_err(), DefinitionError::MissingName);
    assert_eq!(
        check_skill(&definition("X", &"d".repeat(1025))).unwrap_err(),
        DefinitionError::InvalidName
    );
}

#[test]
fn check_and_parse_agree() {
    let text = definition("ok-1", "Fine");
    let checked = check_skill(&text).unwrap();
    let parsed = parse_skill(&text).unwrap();
    assert_eq!(checked.name, parsed.name);
    assert_eq!(checked.description, parsed.description);
    assert_eq!(checked.body, parsed.body);
    assert_eq!(checked.body, "Body.");
    assert_eq!(checked.allowed_tools, parsed.allowed_tools);
}
