use warmtree::ui::{run_interactive_worktree_menu, start_worktree_menu, MenuAction, MenuEvent, MenuState};
use warmtree::worktree::{ToolOutput, WorktreeError};

const LISTING: &str = "worktree /repo\nHEAD abc123\nbranch refs/heads/main\n\nworktree /repo/feature\nHEAD def456\nbranch refs/heads/feature\n\n";

fn finished(output: &str) -> MenuEvent {
    MenuEvent::ToolFinished(ToolOutput { success: true, stdout: output.to_string(), stderr: String::new() })
}

fn failed(err: &str) -> MenuEvent {
    MenuEvent::ToolFinished(ToolOutput { success: false, stdout: String::new(), stderr: err.to_string() })
}

fn menu() -> MenuState {
    let (state, action) = start_worktree_menu();
    assert!(matches!(state, MenuState::Listing));
    match action {
        MenuAction::RunTool(args) => assert_eq!(args, vec!["worktree", "list", "--porcelain"]),
        _ => panic!("expected the listing to be asked for"),
    }
    let (state, action) = run_interactive_worktree_menu(state, finished(LISTING));
    match action {
        MenuAction::Select(options) => {
            assert_eq!(options, vec!["Create New Worktree", "repo (main)", "feature (feature)"])
        }
        _ => panic!("expected the menu"),
    }
    state
}

#[test]
fn choosing_an_existing_worktree_shows_its_path() {
    let (state, action) = run_interactive_worktree_menu(menu(), MenuEvent::Selected(2));
    assert!(matches!(state, MenuState::Finished(Ok(()))));
    match action {
        MenuAction::ShowSelected(path) => assert_eq!(path, "/repo/feature"),
        _ => panic!("expected the selected path"),
    }
}

#[test]
fn out_of_range_choice_ends_quietly() {
    let (state, action) = run_interactive_worktree_menu(menu(), MenuEvent::Selected(3));
    assert!(matches!(state, MenuState::Finished(Ok(()))));
    assert!(matches!(action, MenuAction::Nothing));
}

#[test]
fn creating_a_worktree() {
    let (state, action) = run_interactive_worktree_menu(menu(), MenuEvent::Selected(0));
    assert!(matches!(action, MenuAction::PromptPath));
    let (state, action) = run_interactive_worktree_menu(state, MenuEvent::TextEntered("../hotfix".to_string()));
    assert!(matches!(action, MenuAction::PromptBranch));
    let (state, action) = run_interactive_worktree_menu(state, MenuEvent::TextEntered("main".to_string()));
    match action {
        MenuAction::Confirm(path, branch) => {
            assert_eq!(path, "../hotfix");
            assert_eq!(branch, "main");
        }
        _ => panic!("expected a confirmation"),
    }
    let (state, action) = run_interactive_worktree_menu(state, MenuEvent::Confirmed(true));
    match action {
        MenuAction::RunTool(args) => assert_eq!(args, vec!["worktree", "add", "../hotfix", "main"]),
        _ => panic!("expected the creation command"),
    }
    let (state, action) = run_interactive_worktree_menu(state, finished(""));
    assert!(matches!(state, MenuState::Finished(Ok(()))));
    assert!(matches!(action, MenuAction::ReportCreated));
}

#[test]
fn declining_creation_does_nothing() {
    let (state, _) = run_interactive_worktree_menu(menu(), MenuEvent::Selected(0));
    let (state, _) = run_interactive_worktree_menu(state, MenuEvent::TextEntered("x".to_string()));
    let (state, _) = run_interactive_worktree_menu(state, MenuEvent::TextEntered("y".to_string()));
    let (state, action) = run_interactive_worktree_menu(state, MenuEvent::Confirmed(false));
    assert!(matches!(state, MenuState::Finished(Ok(()))));
    assert!(matches!(action, MenuAction::Nothing));
}

#[test]
fn failed_creation_ends_with_tool_error() {
    let (state, _) = run_interactive_worktree_menu(menu(), MenuEvent::Selected(0));
    let (state, _) = run_interactive_worktree_menu(state, MenuEvent::TextEntered("x".to_string()));
    let (state, _) = run_interactive_worktree_menu(state, MenuEvent::TextEntered("nope".to_string()));
    let (state, _) = run_interactive_worktree_menu(state, MenuEvent::Confirmed(true));
    let (state, action) = run_interactive_worktree_menu(state, failed("fatal: invalid reference: nope"));
    match state {
        MenuState::Finished(Err(WorktreeError::ExternalTool(msg))) => assert_eq!(msg, "fatal: invalid reference: nope"),
        _ => panic!("expected the tool's error"),
    }
    assert!(matches!(action, MenuAction::Nothing));
}

#[test]
fn failed_listing_ends_with_tool_error() {
    let (state, _) = start_worktree_menu();
    let (state, action) = run_interactive_worktree_menu(state, failed("fatal: not a git repository"));
    match state {
        MenuState::Finished(Err(WorktreeError::ExternalTool(msg))) => assert_eq!(msg, "fatal: not a git repository"),
        _ => panic!("expected the tool's error"),
    }
    assert!(matches!(action, MenuAction::Nothing));
}

#[test]
fn unexpected_event_changes_nothing() {
    let (state, _) = start_worktree_menu();
    let (state, action) = run_interactive_worktree_menu(state, MenuEvent::Selected(1));
    assert!(matches!(state, MenuState::Listing));
    assert!(matches!(action, MenuAction::Nothing));
}
