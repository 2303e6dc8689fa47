use proact::metadata::{
    extract_field, extract_license, extract_license_from_json, extract_license_from_toml,
    extract_repository, generate_mit_license, resolve_author, ManifestFormat, ProjectMetadata,
};

fn sample(author: &str, email: Option<&str>) -> ProjectMetadata {
    ProjectMetadata {
        current_year: "2025".to_string(),
        author_name: author.to_string(),
        author_email: email.map(|e| e.to_string()),
        license: "MIT".to_string(),
        repository: None,
    }
}

#[test]
fn test_extract_license_from_toml() {
    let content = r#"
[package]
name = "test"
license = "MIT"
"#;
    assert_eq!(extract_license_from_toml(content), Some("MIT".to_string()));
}

#[test]
fn test_extract_license_from_json() {
    let content = r#"
{
  "name": "test",
  "license": "MIT"
}
"#;
    assert_eq!(extract_license_from_json(content), Some("MIT".to_string()));
}

#[test]
fn test_copyright_string() {
    let metadata = ProjectMetadata {
        current_year: "2025".to_string(),
        author_name: "John Doe".to_string(),
        author_email: Some("john@example.com".to_string()),
        license: "MIT".to_string(),
        repository: None,
    };
    assert_eq!(metadata.copyright_string(), "Copyright (c) 2025 John Doe");
}

#[test]
fn test_author_with_email() {
    let metadata = ProjectMetadata {
        current_year: "2025".to_string(),
        author_name: "John Doe".to_string(),
        author_email: Some("john@example.com".to_string()),
        license: "MIT".to_string(),
        repository: None,
    };
    assert_eq!(metadata.author_with_email(), "John Doe <john@example.com>");
}

#[test]
fn test_generate_mit_license() {
    let metadata = ProjectMetadata {
        current_year: "2025".to_string(),
        author_name: "Test Author".to_string(),
        author_email: None,
        license: "MIT".to_string(),
        repository: None,
    };
    let license = generate_mit_license(&metadata);
    assert!(license.contains("MIT License"));
    assert!(license.contains("Copyright (c) 2025 Test Author"));
}

#[test]
fn author_without_email_is_the_name() {
    assert_eq!(sample("Jane Doe", None).author_with_email(), "Jane Doe");
}

#[test]
fn mit_license_starts_with_heading_and_copyright() {
    let license = generate_mit_license(&sample("Jane Doe", None));
    assert!(license.starts_with("MIT License\n\nCopyright (c) 2025 Jane Doe\n\nPermission is hereby granted"));
    assert!(license.ends_with("DEALINGS IN THE\nSOFTWARE.\n"));
}

#[test]
fn toml_value_is_trimmed_of_spaces_and_quotes() {
    assert_eq!(extract_license_from_toml("  license   =   \"Apache-2.0\"  \n"), Some("Apache-2.0".to_string()));
    assert_eq!(extract_license_from_toml("license=MIT"), Some("MIT".to_string()));
}

#[test]
fn toml_first_matching_line_wins() {
    let content = "license = \"\"\nlicense = \"MIT\"\nlicense = \"GPL-3.0\"\n";
    assert_eq!(extract_license_from_toml(content), Some("MIT".to_string()));
}

#[test]
fn toml_without_equals_or_field_gives_none() {
    assert_eq!(extract_license_from_toml("[package]\nname = \"x\"\nlicense\n"), None);
    assert_eq!(extract_license_from_toml(""), None);
    assert_eq!(extract_license_from_toml("\u{0}\u{7f}garbage = = =\r\n"), None);
}

#[test]
fn toml_handles_crlf_lines() {
    assert_eq!(extract_license_from_toml("name = \"a\"\r\nlicense = \"MIT\"\r\n"), Some("MIT".to_string()));
}

#[test]
fn json_nested_object_is_not_a_value() {
    let content = "{\n  \"license\": { \"type\": \"MIT\" },\n  \"name\": \"x\"\n}\n";
    assert_eq!(extract_license_from_json(content), None);
}

#[test]
fn json_trailing_comma_is_stripped() {
    let content = "{\n  \"license\": \"ISC\",\n  \"name\": \"x\"\n}";
    assert_eq!(extract_license_from_json(content), Some("ISC".to_string()));
}

#[test]
fn json_value_after_first_colon_is_kept_whole() {
    let content = "{\n  \"repository\": \"https://example.com/a/b\",\n}";
    assert_eq!(
        extract_field(ManifestFormat::Json, content, "repository"),
        Some("https://example.com/a/b".to_string())
    );
}

#[test]
fn license_prefers_cargo_then_package_then_placeholder() {
    let cargo = "[package]\nlicense = \"MIT\"\n";
    let package = "{\n  \"license\": \"ISC\"\n}";
    assert_eq!(extract_license(Some(cargo), Some(package)), "MIT");
    assert_eq!(extract_license(Some("[package]\n"), Some(package)), "ISC");
    assert_eq!(extract_license(None, Some(package)), "ISC");
    assert_eq!(extract_license(Some("[package]\n"), Some("{}")), "<license>");
    assert_eq!(extract_license(None, None), "<license>");
}

#[test]
fn repository_is_absent_when_unresolved() {
    assert_eq!(extract_repository(None, None), None);
    assert_eq!(
        extract_repository(Some("repository = \"https://example.com/r\"\n"), None),
        Some("https://example.com/r".to_string())
    );
}

#[test]
fn author_lookup_outputs_are_trimmed() {
    let (name, email) = resolve_author(Some("  Jane Doe\n"), Some("jane@example.com\n"));
    assert_eq!(name, "Jane Doe");
    assert_eq!(email, Some("jane@example.com".to_string()));
}

#[test]
fn failed_or_blank_lookups_give_placeholder_and_no_email() {
    assert_eq!(resolve_author(None, None), ("<author>".to_string(), None));
    assert_eq!(resolve_author(Some(" \n"), Some("\n")), ("<author>".to_string(), None));
}

#[test]
fn nothing_resolvable_gives_placeholders() {
    let m = ProjectMetadata::extract_at("2025".to_string(), None, None, None, None);
    assert_eq!(m.author_name, "<author>");
    assert_eq!(m.license, "<license>");
    assert_eq!(m.author_email, None);
    assert_eq!(m.repository, None);
}

#[test]
fn apache_manifest_and_named_author_render_copyright() {
    let cargo = "[package]\nname = \"x\"\nlicense = \"Apache-2.0\"\n";
    let m = ProjectMetadata::extract(Some("Jane Doe\n"), None, Some(cargo), None);
    assert_eq!(m.license, "Apache-2.0");
    assert_ne!(m.license, "<license>");
    assert_eq!(m.copyright_string(), format!("Copyright (c) {} Jane Doe", m.current_year));
    assert!(generate_mit_license(&m).contains(&format!("Copyright (c) {} Jane Doe", m.current_year)));
}

#[test]
fn test_get_current_year() {
    let m = ProjectMetadata::extract(None, None, None, None);
    assert_eq!(m.current_year.len(), 4);
    assert!(m.current_year.parse::<u32>().is_ok());
}
