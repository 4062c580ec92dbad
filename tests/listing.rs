use warmtree::worktree::{
    check_tool_output, create_worktree, create_worktree_args, list_worktrees, list_worktrees_args,
    parse_worktree_output, ToolOutput, Worktree, WorktreeError,
};

fn output(success: bool, stdout: &str, stderr: &str) -> ToolOutput {
    ToolOutput { success, stdout: stdout.to_string(), stderr: stderr.to_string() }
}

fn worktree(path: &str, branch: &str, commit: &str) -> Worktree {
    Worktree { path: path.to_string(), branch: branch.to_string(), commit: commit.to_string() }
}

#[test]
fn test_parse_worktree_output_single() {
    let output = "worktree /path/to/repo\nHEAD abc123\nbranch refs/heads/main\n\n";
    let result = parse_worktree_output(output).unwrap();

    assert_eq!(result.len(), 1);
    assert_eq!(result[0].path, "/path/to/repo");
    assert_eq!(result[0].branch, "refs/heads/main");
    assert_eq!(result[0].commit, "abc123");
}

#[test]
fn test_parse_worktree_output_multiple() {
    let output = "worktree /repo\nHEAD abc123\nbranch refs/heads/main\n\nworktree /repo/feature\nHEAD def456\nbranch refs/heads/feature\n\n";
    let result = parse_worktree_output(output).unwrap();

    assert_eq!(result.len(), 2);
    assert_eq!(result[1].path, "/repo/feature");
    assert_eq!(result[1].branch, "refs/heads/feature");
}

#[test]
fn test_parse_worktree_output_detached() {
    let output = "worktree /detached/path\nHEAD abc123\ndetached\n\n";
    let result = parse_worktree_output(output).unwrap();

    assert_eq!(result.len(), 1);
    assert_eq!(result[0].path, "/detached/path");
    assert_eq!(result[0].branch, "detached");
    assert_eq!(result[0].commit, "abc123");
}

#[test]
fn multiple_records_in_full() {
    let text = "worktree /repo\nHEAD abc123\nbranch refs/heads/main\n\nworktree /repo/feature\nHEAD def456\nbranch refs/heads/feature\n\n";
    let result = parse_worktree_output(text).unwrap();
    assert_eq!(
        result,
        vec![worktree("/repo", "refs/heads/main", "abc123"), worktree("/repo/feature", "refs/heads/feature", "def456")]
    );
}

#[test]
fn three_blocks_give_three_records_in_order() {
    let text = "worktree /a\nHEAD 1\nbranch refs/heads/a\n\nworktree /b\nHEAD 2\nbranch refs/heads/b\n\nworktree /c\nHEAD 3\ndetached\n\n";
    let result = parse_worktree_output(text).unwrap();
    assert_eq!(
        result,
        vec![worktree("/a", "refs/heads/a", "1"), worktree("/b", "refs/heads/b", "2"), worktree("/c", "detached", "3")]
    );
}

#[test]
fn empty_listing_has_no_records() {
    assert_eq!(parse_worktree_output("").unwrap(), vec![]);
    assert_eq!(parse_worktree_output("\n\n\n\n").unwrap(), vec![]);
}

#[test]
fn missing_head_gives_empty_commit() {
    let result = parse_worktree_output("worktree /x\nbranch refs/heads/x\n\n\n").unwrap();
    assert_eq!(result, vec![worktree("/x", "refs/heads/x", "")]);
}

#[test]
fn missing_branch_and_head() {
    let result = parse_worktree_output("worktree /bare").unwrap();
    assert_eq!(result, vec![worktree("/bare", "detached", "")]);
}

#[test]
fn noise_chunk_is_skipped() {
    let text = "junk\nmore junk\nHEAD 999\nbranch refs/heads/no\nworktree /repo\nHEAD abc\nbranch refs/heads/main\n\n";
    let result = parse_worktree_output(text).unwrap();
    assert_eq!(result, vec![worktree("/repo", "refs/heads/main", "abc")]);
}

#[test]
fn bare_worktree_prefix_is_skipped() {
    let text = "worktree \nHEAD abc\nbranch refs/heads/main\n\nworktree /ok\nHEAD def\ndetached\n\n";
    let result = parse_worktree_output(text).unwrap();
    assert_eq!(result, vec![worktree("/ok", "detached", "def")]);
}

#[test]
fn fields_are_scanned_in_any_order() {
    let text = "worktree /p\nbranch refs/heads/b\nHEAD h1\nHEAD h2\n";
    let result = parse_worktree_output(text).unwrap();
    assert_eq!(result, vec![worktree("/p", "refs/heads/b", "h1")]);
}

#[test]
fn crlf_line_endings() {
    let text = "worktree /win\r\nHEAD abc\r\nbranch refs/heads/main\r\n\r\n";
    let result = parse_worktree_output(text).unwrap();
    assert_eq!(result, vec![worktree("/win", "refs/heads/main", "abc")]);
}

#[test]
fn misaligned_block_shifts_chunks() {
    let text = "worktree /a\nHEAD 1\nbranch refs/heads/a\nlocked\n\nworktree /b\nHEAD 2\nbranch refs/heads/b\n\n";
    let result = parse_worktree_output(text).unwrap();
    assert_eq!(result, vec![worktree("/a", "refs/heads/a", "1")]);
}

#[test]
fn failed_listing_keeps_error_text() {
    let r = list_worktrees(&output(false, "ignored", "fatal: not a git repository\n"));
    assert_eq!(r, Err(WorktreeError::ExternalTool("fatal: not a git repository\n".to_string())));
}

#[test]
fn successful_listing_is_parsed() {
    let r = list_worktrees(&output(true, "worktree /r\nHEAD 0\nbranch refs/heads/m\n\n", "warning"));
    assert_eq!(r, Ok(vec![worktree("/r", "refs/heads/m", "0")]));
}

#[test]
fn creation_outcome() {
    assert_eq!(create_worktree(&output(true, "", "Preparing worktree")), Ok(()));
    assert_eq!(
        create_worktree(&output(false, "", "fatal: invalid reference: nope")),
        Err(WorktreeError::ExternalTool("fatal: invalid reference: nope".to_string()))
    );
    assert_eq!(check_tool_output(&output(false, "", "")), Err(WorktreeError::ExternalTool(String::new())));
}

#[test]
fn tool_arguments() {
    assert_eq!(list_worktrees_args(), vec!["worktree", "list", "--porcelain"]);
    assert_eq!(create_worktree_args("../new dir", "feature"), vec!["worktree", "add", "../new dir", "feature"]);
}
