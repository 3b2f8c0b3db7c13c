use agent_skills::policy::{is_exempt, is_tool_allowed, AllowList};

#[test]
fn listed_tool_is_allowed() {
    assert!(is_tool_allowed("Read", "Read, Grep"));
    assert!(is_tool_allowed("Grep", "Read, Grep"));
}

#[test]
fn unlisted_tool_is_denied() {
    assert!(!is_tool_allowed("Write", "Read, Grep"));
}

#[test]
fn pattern_entry_matches_by_base_name() {
    assert!(is_tool_allowed("Bash", "Bash(git:*)"));
    assert!(!is_tool_allowed("Bash(git:*)", "Bash(git:*)"));
    assert!(!is_tool_allowed("git", "Bash(git:*)"));
}

#[test]
fn management_tools_are_always_allowed() {
    assert!(is_tool_allowed("skill_marketplace", "Read"));
    assert!(is_tool_allowed("read_skill_file", "Read"));
    assert!(is_tool_allowed("run_skill_script", "Read"));
    assert!(is_tool_allowed("run_skill_script", ""));
}

#[test]
fn skill_invocations_are_always_allowed() {
    assert!(is_tool_allowed("skill_anything", "Read"));
    assert!(is_tool_allowed("skill_", "Read"));
    assert!(!is_tool_allowed("skil", "Read"));
    assert!(!is_tool_allowed("my_skill_x", "Read"));
}

#[test]
fn exemptions_by_name() {
    assert!(is_exempt("skill_marketplace"));
    assert!(is_exempt("skill_pdf-extract"));
    assert!(!is_exempt("Read"));
    assert!(!is_exempt("read_skill_files"));
}

#[test]
fn entries_are_trimmed() {
    assert!(is_tool_allowed("Grep", "  Read ,\tGrep\n"));
    assert!(!is_tool_allowed(" Grep", "Read, Grep"));
    assert!(!is_tool_allowed("Bash", "Read,  Bash (x)"));
    assert!(is_tool_allowed("Bash ", "Read,  Bash (x)"));
}

#[test]
fn empty_list_allows_only_the_empty_name_and_exempt_tools() {
    assert!(is_tool_allowed("", ""));
    assert!(!is_tool_allowed("Read", ""));
    assert!(is_tool_allowed("", "Read,,Grep"));
}

#[test]
fn parse_keeps_entries_in_order() {
    let list = AllowList::parse("Read, Bash(pdftotext:*) ,Grep");
    assert_eq!(list.entries.len(), 3);
    assert_eq!(list.entries[0].base, "Read");
    assert_eq!(list.entries[0].pattern, None);
    assert_eq!(list.entries[1].base, "Bash");
    assert_eq!(list.entries[1].pattern, Some("pdftotext:*)".to_string()));
    assert_eq!(list.entries[2].base, "Grep");
    assert!(list.permits("Bash"));
    assert!(!list.permits("Write"));
}

#[test]
fn parse_of_empty_text_is_one_empty_entry() {
    let list = AllowList::parse("");
    assert_eq!(list.entries.len(), 1);
    assert_eq!(list.entries[0].base, "");
    assert_eq!(list.entries[0].pattern, None);
}
