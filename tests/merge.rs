use proact::merge::{decide, merged_content, plan_write, plan_write_now, separator, MergeDecision};

#[test]
fn separator_embeds_timestamp() {
    assert_eq!(separator("20250102T030405"), "\n\n---- Added 20250102T030405 ----\n\n");
}

#[test]
fn decision_follows_existence() {
    assert_eq!(decide(false), MergeDecision::Create);
    assert_eq!(decide(true), MergeDecision::AppendWithSeparator);
}

#[test]
fn create_writes_new_content_exactly() {
    let plan = plan_write(None, "# New\n", "20250102T030405", false);
    assert_eq!(plan.decision, MergeDecision::Create);
    assert_eq!(plan.contents, Some("# New\n".to_string()));
}

#[test]
fn append_keeps_existing_then_separator_then_new() {
    let plan = plan_write(Some("# Existing\n"), "# New\n", "20250102T030405", false);
    assert_eq!(plan.decision, MergeDecision::AppendWithSeparator);
    assert_eq!(
        plan.contents,
        Some("# Existing\n\n\n---- Added 20250102T030405 ----\n\n# New\n".to_string())
    );
}

#[test]
fn dry_run_decides_but_writes_nothing() {
    let dry = plan_write(Some("# Existing\n"), "# New\n", "20250102T030405", true);
    let real = plan_write(Some("# Existing\n"), "# New\n", "20250102T030405", false);
    assert_eq!(dry.decision, real.decision);
    assert_eq!(dry.contents, None);
    let dry_new = plan_write(None, "# New\n", "t", true);
    assert_eq!(dry_new.decision, MergeDecision::Create);
    assert_eq!(dry_new.contents, None);
}

#[test]
fn learnings_append_has_dated_separator() {
    let plan = plan_write_now(Some("# Existing\n"), "# New\n", false);
    let c = plan.contents.unwrap();
    assert!(c.starts_with("# Existing\n\n\n---- Added "));
    assert!(c.ends_with(" ----\n\n# New\n"));
    let stamp = &c["# Existing\n\n\n---- Added ".len()..c.len() - " ----\n\n# New\n".len()];
    assert_eq!(stamp.len(), 15);
    assert_eq!(&stamp[8..9], "T");
    assert!(stamp.chars().filter(|ch| *ch != 'T').all(|ch| ch.is_ascii_digit()));
}

#[test]
fn merged_content_of_empty_existing_still_separates() {
    assert_eq!(merged_content(Some(""), "n", "t"), "\n\n---- Added t ----\n\nn");
}
