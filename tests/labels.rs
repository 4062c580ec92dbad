use warmtree::ui::{create_menu_options, extract_directory_name, format_branch_name, format_worktree_display};
use warmtree::worktree::Worktree;

fn worktree(path: &str, branch: &str, commit: &str) -> Worktree {
    Worktree { path: path.to_string(), branch: branch.to_string(), commit: commit.to_string() }
}

#[test]
fn test_extract_directory_name() {
    assert_eq!(extract_directory_name("/path/to/worktree"), "worktree");
    assert_eq!(extract_directory_name("simple-name"), "simple-name");
}

#[test]
fn test_format_branch_name() {
    assert_eq!(format_branch_name("refs/heads/main"), "main");
    assert_eq!(format_branch_name("feature/test"), "feature/test");
}

#[test]
fn test_format_worktree_display() {
    let worktree = Worktree {
        path: "/repo/feature-branch".to_string(),
        branch: "refs/heads/feature".to_string(),
        commit: "abc123".to_string(),
    };

    assert_eq!(format_worktree_display(&worktree), "feature-branch (feature)");
}

#[test]
fn directory_name_edge_cases() {
    assert_eq!(extract_directory_name(""), "");
    assert_eq!(extract_directory_name("/"), "");
    assert_eq!(extract_directory_name("/repo/"), "");
    assert_eq!(extract_directory_name("a/b"), "b");
    assert_eq!(extract_directory_name("/only"), "only");
}

#[test]
fn branch_name_edge_cases() {
    assert_eq!(format_branch_name("detached"), "detached");
    assert_eq!(format_branch_name("refs/heads/"), "");
    assert_eq!(format_branch_name("refs/heads/feature/x"), "feature/x");
    assert_eq!(format_branch_name("refs/tags/v1"), "refs/tags/v1");
    assert_eq!(format_branch_name("xrefs/heads/main"), "xrefs/heads/main");
}

#[test]
fn display_of_plain_names() {
    assert_eq!(format_worktree_display(&worktree("simple-name", "feature/test", "")), "simple-name (feature/test)");
    assert_eq!(format_worktree_display(&worktree("/d", "detached", "abc")), "d (detached)");
}

#[test]
fn menu_options_start_with_creation() {
    let ws = vec![worktree("/repo", "refs/heads/main", "abc123"), worktree("/repo/feature", "refs/heads/feature", "def456")];
    let options = create_menu_options(&ws);
    assert_eq!(options, vec!["Create New Worktree".to_string(), "repo (main)".to_string(), "feature (feature)".to_string()]);
    assert_eq!(create_menu_options(&[]), vec!["Create New Worktree".to_string()]);
}
