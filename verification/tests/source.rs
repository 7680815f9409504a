use opengoose::source::{extract_owner_repo, parse_source};

#[test]
fn shorthand() {
    let s = parse_source("anthropics/skills").unwrap();
    assert_eq!(s.owner_repo, "anthropics/skills");
    assert_eq!(s.clone_url, "https://github.com/anthropics/skills.git");
}

#[test]
fn full_url() {
    let s = parse_source("https://github.com/vercel-labs/agent-skills").unwrap();
    assert_eq!(s.owner_repo, "vercel-labs/agent-skills");
    assert_eq!(s.clone_url, "https://github.com/vercel-labs/agent-skills.git");
}

#[test]
fn full_url_with_git_suffix() {
    let s = parse_source("https://github.com/anthropics/skills.git").unwrap();
    assert_eq!(s.owner_repo, "anthropics/skills");
    assert_eq!(s.clone_url, "https://github.com/anthropics/skills.git");
}

#[test]
fn trailing_slash_stripped() {
    let s = parse_source("anthropics/skills/").unwrap();
    assert_eq!(s.owner_repo, "anthropics/skills");
}

#[test]
fn invalid_source() {
    assert!(parse_source("just-a-word").is_err());
}

#[test]
fn extract_owner_repo_cases() {
    assert_eq!(extract_owner_repo("https://github.com/a/b.git").as_deref(), Some("a/b"));
    assert_eq!(extract_owner_repo("https://github.com/a").as_deref(), None);
}
