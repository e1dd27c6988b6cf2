use hyprpilot::skills::{
    COMPATIBILITY_MAX_CHARS, extract_frontmatter, is_valid_skill_name, report, run_cli, squeeze,
    usage, validate_paths, validate_skill, skipped_dir,
};

/// The problems of a `SKILL.md` holding `content` in a directory named `dir`.
fn problems_of(dir: &str, content: &str) -> Vec<String> {
    let path = format!("/tmp/skills/{dir}/SKILL.md");
    let text = content.to_owned();
    match validate_paths(&vec![path.clone()], &|asked: String| -> Result<String, String> {
        assert_eq!(asked, path);
        Ok(text.clone())
    }) {
        Ok(message) => {
            assert_eq!(message, "Validated 1 skill file(s).");
            Vec::new()
        }
        Err(message) => message
            .lines()
            .filter_map(|line| line.strip_prefix("- ").map(str::to_owned))
            .collect(),
    }
}

#[test]
fn rejects_description_longer_than_spec_limit() {
    let problems = problems_of(
        "bad-skill",
        &format!("---\nname: bad-skill\ndescription: \"{}\"\n---\n", "x".repeat(1025)),
    );
    assert!(!problems.is_empty(), "description > 1024 must fail");
    assert!(
        problems
            .iter()
            .any(|problem| problem.contains("`description` length is 1025, expected 1-1024")),
        "unexpected problems: {problems:#?}"
    );
}

#[test]
fn accepts_multiline_pipe_description() {
    let problems = problems_of(
        "good-skill",
        "---\nname: good-skill\ndescription: |\n  line one\n  line two\n---\n",
    );
    assert!(problems.is_empty(), "{}", problems.join("; "));
}

#[test]
fn rejects_name_that_does_not_match_parent_directory() {
    let problems = problems_of(
        "folder-name",
        "---\nname: other-name\ndescription: valid description\n---\n",
    );
    assert!(
        problems
            .iter()
            .any(|problem| problem.contains("`name` is `other-name` but parent directory is `folder-name`")),
        "unexpected problems: {problems:#?}"
    );
}

#[test]
fn rejects_compatibility_longer_than_spec_limit() {
    let problems = problems_of(
        "compat-skill",
        &format!(
            "---\nname: compat-skill\ndescription: valid description\ncompatibility: \"{}\"\n---\n",
            "y".repeat(COMPATIBILITY_MAX_CHARS + 1)
        ),
    );
    assert!(
        problems
            .iter()
            .any(|problem| problem.contains("`compatibility` length is 501, expected 1-500")),
        "unexpected problems: {problems:#?}"
    );
}

#[test]
fn extracts_frontmatter_with_crlf_delimiters() {
    let frontmatter =
        extract_frontmatter("---\r\nname: crlf-skill\r\ndescription: works\r\n---\r\n# Body\r\n").unwrap();
    assert!(frontmatter.contains("name: crlf-skill"));
    assert!(frontmatter.contains("description: works"));
    assert_eq!(frontmatter, "name: crlf-skill\r\ndescription: works\r");
}

#[test]
fn a_frontmatter_needs_both_delimiters() {
    assert_eq!(
        extract_frontmatter("name: x\n---\n"),
        Err("missing opening frontmatter delimiter (`---`)".to_owned())
    );
    assert_eq!(
        extract_frontmatter("---\nname: x\n"),
        Err("missing closing frontmatter delimiter (`---`)".to_owned())
    );
    assert_eq!(extract_frontmatter("---\nname: x\n---\nbody"), Ok("name: x".to_owned()));
}

#[test]
fn skill_names_use_the_lowercase_hyphenated_alphabet() {
    assert!(is_valid_skill_name("content-architect"));
    assert!(is_valid_skill_name("a1"));
    assert!(!is_valid_skill_name("-lead"));
    assert!(!is_valid_skill_name("trail-"));
    assert!(!is_valid_skill_name("double--hyphen"));
    assert!(!is_valid_skill_name("Upper"));
    assert!(!is_valid_skill_name("under_score"));
}

#[test]
fn every_problem_of_a_file_is_reported_with_its_path() {
    let problems = validate_skill("x/Bad/SKILL.md", Some("Bad"), "---\nname: Bad\ndescription: \"  \"\n---\n");
    assert_eq!(
        problems,
        vec![
            "x/Bad/SKILL.md: `name` must use lowercase letters, numbers, and single hyphens only, without leading/trailing hyphens".to_owned(),
            "x/Bad/SKILL.md: `description` must be a non-empty string".to_owned(),
        ]
    );
    assert_eq!(
        validate_skill("s/SKILL.md", Some("s"), "no frontmatter"),
        vec!["s/SKILL.md: missing opening frontmatter delimiter (`---`)".to_owned()]
    );
    let broken = validate_skill("s/SKILL.md", Some("s"), "---\nname: [unclosed\n---\n");
    assert_eq!(broken.len(), 1);
    assert!(broken[0].starts_with("s/SKILL.md: invalid YAML frontmatter: "), "{broken:?}");
}

#[test]
fn a_structured_compatibility_is_measured_on_one_line() {
    let problems = problems_of(
        "structured",
        "---\nname: structured\ndescription: ok\ncompatibility:\n  - linux\n  - macos\n---\n",
    );
    assert!(problems.is_empty(), "{problems:?}");
    assert_eq!(squeeze("  - linux\n  - macos\n"), "- linux - macos");
}

#[test]
fn the_command_line_validates_named_skill_files_in_path_order() {
    let order = |mut paths: Vec<String>| {
        paths.sort();
        paths.dedup();
        paths
    };
    let read = |_: String| -> Result<String, String> {
        Ok("---\nname: alpha\ndescription: fine\n---\n".to_owned())
    };
    let args = vec![
        "validate".to_owned(),
        "frontmatter".to_owned(),
        "skills/alpha/SKILL.md".to_owned(),
        "README.md".to_owned(),
        "skills/alpha/SKILL.md".to_owned(),
    ];
    assert_eq!(
        run_cli(&args, || -> Result<Vec<String>, String> { panic!("no discovery with paths given") }, order, &read),
        Ok("Validated 1 skill file(s).".to_owned())
    );
    let only_readme = vec!["validate".to_owned(), "frontmatter".to_owned(), "README.md".to_owned()];
    assert_eq!(
        run_cli(&only_readme, || -> Result<Vec<String>, String> { Ok(Vec::new()) }, order, &read),
        Ok(String::new())
    );
    let discover_all = vec!["validate".to_owned(), "frontmatter".to_owned()];
    assert_eq!(
        run_cli(&discover_all, || -> Result<Vec<String>, String> { Err("denied".to_owned()) }, order, &read),
        Err("Failed to discover SKILL.md files: denied".to_owned())
    );
    assert_eq!(run_cli(&vec!["lint".to_owned()], || Ok(Vec::new()), order, &read), Err(usage()));
}

#[test]
fn a_single_path_or_none_needs_no_ordering() {
    let order = |_: Vec<String>| -> Vec<String> { panic!("nothing to put in order") };
    let read = |_: String| -> Result<String, String> { Ok("---\nname: alpha\ndescription: fine\n---\n".to_owned()) };
    let notes = vec!["validate".to_owned(), "frontmatter".to_owned(), "notes.txt".to_owned()];
    assert_eq!(run_cli(&notes, || -> Result<Vec<String>, String> { panic!("no discovery") }, order, &read), Ok(String::new()));
    let one = vec!["validate".to_owned(), "frontmatter".to_owned(), "skills/alpha/SKILL.md".to_owned()];
    assert_eq!(
        run_cli(&one, || -> Result<Vec<String>, String> { panic!("no discovery") }, order, &read),
        Ok("Validated 1 skill file(s).".to_owned())
    );
}

#[test]
fn a_failed_validation_lists_every_problem_and_the_spec() {
    assert_eq!(report(2, &Vec::new()), Ok("Validated 2 skill file(s).".to_owned()));
    assert_eq!(
        report(2, &vec!["a: x".to_owned(), "b: y".to_owned()]),
        Err("Skill frontmatter validation failed:\n- a: x\n- b: y\nSpec: https://agentskills.io/specification".to_owned())
    );
}

#[test]
fn the_walk_skips_vcs_build_and_dependency_directories() {
    for name in [".git", "target", "node_modules"] {
        assert!(skipped_dir(name));
    }
    for name in ["skills", "git", "targets", ".github"] {
        assert!(!skipped_dir(name));
    }
}
