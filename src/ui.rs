//! The interactive menu: how worktrees are labelled, and the session that
//! lists them, lets the user pick one or create one.
//!
//! The session is a state machine. Each step takes the current state and the
//! answer to the previous action (what the tool produced, what the user chose
//! or typed) and yields the next state and the next action to perform. The
//! caller performs the action and feeds its answer back until the state is
//! `MenuState::Finished`.
use vstd::prelude::*;

use crate::text::{after_prefix, chars_of, starts_with, string_of, string_rows};
use crate::worktree::{
    create_worktree, create_worktree_args, list_worktrees, list_worktrees_args, parse_listing,
    views, ToolOutput, Worktree, WorktreeError, WorktreeView,
};

verus! {

/// The part of `s` after its last `/`; all of `s` when it has none.
pub open spec fn last_segment(s: Seq<char>) -> Seq<char>
    decreases s.len(),
{
    if s.len() == 0 {
        s
    } else if s.last() == '/' {
        seq![]
    } else {
        last_segment(s.drop_last()).push(s.last())
    }
}

/// A ref without a leading `refs/heads/`; other refs unchanged.
pub open spec fn short_branch(b: Seq<char>) -> Seq<char> {
    if starts_with(b, "refs/heads/"@) {
        b.skip("refs/heads/"@.len() as int)
    } else {
        b
    }
}

/// The menu label of a worktree: `<leaf directory> (<short branch>)`.
pub open spec fn display_label(w: WorktreeView) -> Seq<char> {
    last_segment(w.path) + " ("@ + short_branch(w.branch) + ")"@
}

/// The menu entries: creation first, then one label per worktree in order.
pub open spec fn menu_labels(ws: Seq<WorktreeView>) -> Seq<Seq<char>> {
    seq!["Create New Worktree"@] + ws.map_values(|w: WorktreeView| display_label(w))
}

/// The last path segment of `path`, or `path` itself when it holds no `/`.
pub fn extract_directory_name(path: &str) -> (r: String)
    ensures
        r@ == last_segment(path@),
{
    let cs = chars_of(path);
    let ghost s = cs@;
    let mut j: usize = cs.len();
    assert(s.take(s.len() as int) == s);
    assert(s.subrange(s.len() as int, s.len() as int) == Seq::<char>::empty());
    while j > 0 && cs[j - 1] != '/'
        invariant
            j <= cs.len(),
            s == cs@,
            last_segment(s) == last_segment(s.take(j as int)) + s.subrange(j as int, s.len() as int),
        decreases j,
    {
        let ghost c = s[j - 1];
        assert(s.take(j as int).drop_last() == s.take(j - 1));
        assert(s.take(j as int).last() == c);
        assert(s.subrange(j - 1, s.len() as int) == seq![c] + s.subrange(j as int, s.len() as int));
        assert(last_segment(s.take(j - 1)).push(c) + s.subrange(j as int, s.len() as int)
            == last_segment(s.take(j - 1)) + s.subrange(j - 1, s.len() as int));
        j = j - 1;
    }
    if j > 0 {
        assert(s.take(j as int).last() == s[j - 1]);
    } else {
        assert(s.take(0) == Seq::<char>::empty());
    }
    assert(last_segment(s.take(j as int)) == Seq::<char>::empty());
    let r = string_of(&cs, j, cs.len());
    assert(Seq::<char>::empty() + s.subrange(j as int, s.len() as int) == s.subrange(
        j as int,
        s.len() as int,
    ));
    r
}

/// `branch` without a leading `refs/heads/`; unchanged when it has none.
pub fn format_branch_name(branch: &str) -> (r: String)
    ensures
        r@ == short_branch(branch@),
{
    let cs = chars_of(branch);
    let heads = chars_of("refs/heads/");
    match after_prefix(&cs, &heads) {
        Some(rest) => rest,
        None => branch.to_owned(),
    }
}

/// The menu label of one worktree.
pub fn format_worktree_display(worktree: &Worktree) -> (r: String)
    ensures
        r@ == display_label(worktree@),
{
    let mut r = extract_directory_name(worktree.path.as_str());
    r.append(" (");
    let branch = format_branch_name(worktree.branch.as_str());
    r.append(branch.as_str());
    r.append(")");
    r
}

/// The menu entries for `worktrees`.
pub fn create_menu_options(worktrees: &[Worktree]) -> (r: Vec<String>)
    ensures
        string_rows(r@) == menu_labels(views(worktrees@)),
{
    let mut options: Vec<String> = vec!["Create New Worktree".to_owned()];
    let ghost ws = views(worktrees@);
    let mut i: usize = 0;
    while i < worktrees.len()
        invariant
            i <= worktrees.len(),
            ws == views(worktrees@),
            string_rows(options@) == menu_labels(ws.take(i as int)),
        decreases worktrees.len() - i,
    {
        let label = format_worktree_display(&worktrees[i]);
        let ghost before = options@;
        options.push(label);
        assert(string_rows(options@) == string_rows(before).push(label@));
        assert(ws.take(i + 1) == ws.take(i as int).push(ws[i as int]));
        assert(ws.take(i + 1).map_values(|w: WorktreeView| display_label(w)) == ws.take(
            i as int,
        ).map_values(|w: WorktreeView| display_label(w)).push(display_label(ws[i as int])));
        i = i + 1;
    }
    assert(ws.take(worktrees.len() as int) == ws);
    options
}


/// Where an interactive session stands.
pub enum MenuState {
    /// Waiting for the tool's worktree listing.
    Listing,
    /// The menu of these worktrees is shown; waiting for a choice.
    Choosing(Vec<Worktree>),
    /// Waiting for the directory of the new worktree.
    AwaitingPath,
    /// Waiting for the branch of a new worktree at this path.
    AwaitingBranch(String),
    /// Waiting for the user to confirm creating a worktree at this path from
    /// this branch.
    AwaitingConfirmation(String, String),
    /// Waiting for the tool to create the worktree.
    Creating,
    /// The session is over, with this outcome.
    Finished(Result<(), WorktreeError>),
}

/// The answer to the last action.
pub enum MenuEvent {
    /// The tool run that was asked for has ended.
    ToolFinished(ToolOutput),
    /// The user picked this menu entry (zero-based).
    Selected(usize),
    /// The user typed this text.
    TextEntered(String),
    /// The user answered the confirmation.
    Confirmed(bool),
}

/// What the caller is to do next.
pub enum MenuAction {
    /// Run the external tool with these arguments; answer `ToolFinished`.
    RunTool(Vec<String>),
    /// Show a single-choice menu of these entries; answer `Selected`.
    Select(Vec<String>),
    /// Ask for the directory of the new worktree; answer `TextEntered`.
    PromptPath,
    /// Ask for the branch to create it from; answer `TextEntered`.
    PromptBranch,
    /// Ask to confirm creating a worktree at this path from this branch;
    /// answer `Confirmed`.
    Confirm(String, String),
    /// Show the path of the chosen worktree.
    ShowSelected(String),
    /// Report that the worktree was created.
    ReportCreated,
    /// Nothing to do.
    Nothing,
}

/// A session state with plain values: a finished session holds `None` when
/// it completed and the tool's error text when it failed.
pub enum MenuStateView {
    Listing,
    Choosing(Seq<WorktreeView>),
    AwaitingPath,
    AwaitingBranch(Seq<char>),
    AwaitingConfirmation(Seq<char>, Seq<char>),
    Creating,
    Finished(Option<Seq<char>>),
}

/// An action with plain values.
pub enum MenuActionView {
    RunTool(Seq<Seq<char>>),
    Select(Seq<Seq<char>>),
    PromptPath,
    PromptBranch,
    Confirm(Seq<char>, Seq<char>),
    ShowSelected(Seq<char>),
    ReportCreated,
    Nothing,
}

/// The outcome of a session with plain values.
pub open spec fn outcome_view(r: Result<(), WorktreeError>) -> Option<Seq<char>> {
    match r {
        Ok(()) => None,
        Err(WorktreeError::ExternalTool(m)) => Some(m@),
    }
}

impl View for MenuState {
    type V = MenuStateView;

    open spec fn view(&self) -> MenuStateView {
        match self {
            MenuState::Listing => MenuStateView::Listing,
            MenuState::Choosing(ws) => MenuStateView::Choosing(views(ws@)),
            MenuState::AwaitingPath => MenuStateView::AwaitingPath,
            MenuState::AwaitingBranch(p) => MenuStateView::AwaitingBranch(p@),
            MenuState::AwaitingConfirmation(p, b) => MenuStateView::AwaitingConfirmation(p@, b@),
            MenuState::Creating => MenuStateView::Creating,
            MenuState::Finished(r) => MenuStateView::Finished(outcome_view(*r)),
        }
    }
}

impl View for MenuAction {
    type V = MenuActionView;

    open spec fn view(&self) -> MenuActionView {
        match self {
            MenuAction::RunTool(args) => MenuActionView::RunTool(string_rows(args@)),
            MenuAction::Select(options) => MenuActionView::Select(string_rows(options@)),
            MenuAction::PromptPath => MenuActionView::PromptPath,
            MenuAction::PromptBranch => MenuActionView::PromptBranch,
            MenuAction::Confirm(p, b) => MenuActionView::Confirm(p@, b@),
            MenuAction::ShowSelected(p) => MenuActionView::ShowSelected(p@),
            MenuAction::ReportCreated => MenuActionView::ReportCreated,
            MenuAction::Nothing => MenuActionView::Nothing,
        }
    }
}

/// The first step of a session: ask the tool for its worktree listing.
pub open spec fn menu_start() -> (MenuStateView, MenuActionView) {
    (
        MenuStateView::Listing,
        MenuActionView::RunTool(seq!["worktree"@, "list"@, "--porcelain"@]),
    )
}

/// The menu entry `i` chosen among `ws`: 0 starts the creation of a new
/// worktree, 1 to `ws.len()` shows that worktree, any other ends the session.
pub open spec fn menu_choice(ws: Seq<WorktreeView>, i: int) -> (MenuStateView, MenuActionView) {
    if i == 0 {
        (MenuStateView::AwaitingPath, MenuActionView::PromptPath)
    } else if 1 <= i <= ws.len() {
        (MenuStateView::Finished(None), MenuActionView::ShowSelected(ws[i - 1].path))
    } else {
        (MenuStateView::Finished(None), MenuActionView::Nothing)
    }
}

/// One step of a session. An event that the state does not wait for leaves
/// it unchanged and asks for nothing.
pub open spec fn menu_step(s: MenuStateView, e: MenuEvent) -> (MenuStateView, MenuActionView) {
    match (s, e) {
        (MenuStateView::Listing, MenuEvent::ToolFinished(out)) => {
            if out.success {
                let ws = parse_listing(out.stdout@);
                (MenuStateView::Choosing(ws), MenuActionView::Select(menu_labels(ws)))
            } else {
                (MenuStateView::Finished(Some(out.stderr@)), MenuActionView::Nothing)
            }
        },
        (MenuStateView::Choosing(ws), MenuEvent::Selected(i)) => menu_choice(ws, i as int),
        (MenuStateView::AwaitingPath, MenuEvent::TextEntered(p)) => (
            MenuStateView::AwaitingBranch(p@),
            MenuActionView::PromptBranch,
        ),
        (MenuStateView::AwaitingBranch(p), MenuEvent::TextEntered(b)) => (
            MenuStateView::AwaitingConfirmation(p, b@),
            MenuActionView::Confirm(p, b@),
        ),
        (MenuStateView::AwaitingConfirmation(p, b), MenuEvent::Confirmed(yes)) => {
            if yes {
                (
                    MenuStateView::Creating,
                    MenuActionView::RunTool(seq!["worktree"@, "add"@, p, b]),
                )
            } else {
                (MenuStateView::Finished(None), MenuActionView::Nothing)
            }
        },
        (MenuStateView::Creating, MenuEvent::ToolFinished(out)) => {
            if out.success {
                (MenuStateView::Finished(None), MenuActionView::ReportCreated)
            } else {
                (MenuStateView::Finished(Some(out.stderr@)), MenuActionView::Nothing)
            }
        },
        _ => (s, MenuActionView::Nothing),
    }
}

/// Starts a session: the tool is asked for its worktree listing.
pub fn start_worktree_menu() -> (r: (MenuState, MenuAction))
    ensures
        (r.0@, r.1@) == menu_start(),
{
    (MenuState::Listing, MenuAction::RunTool(list_worktrees_args()))
}

/// Shows the menu of `worktrees` and waits for a choice.
pub fn display_worktree_menu(worktrees: Vec<Worktree>) -> (r: (MenuState, MenuAction))
    ensures
        r.0@ == MenuStateView::Choosing(views(worktrees@)),
        r.1@ == MenuActionView::Select(menu_labels(views(worktrees@))),
{
    let options = create_menu_options(worktrees.as_slice());
    (MenuState::Choosing(worktrees), MenuAction::Select(options))
}

/// Begins creating a new worktree: its directory is asked for first.
pub fn handle_create_new_worktree() -> (r: (MenuState, MenuAction))
    ensures
        r.0@ == MenuStateView::AwaitingPath,
        r.1@ == MenuActionView::PromptPath,
{
    (MenuState::AwaitingPath, MenuAction::PromptPath)
}

/// Shows the chosen worktree's path, which ends the session.
pub fn handle_existing_worktree(worktree: &Worktree) -> (r: (MenuState, MenuAction))
    ensures
        r.0@ == MenuStateView::Finished(None),
        r.1@ == MenuActionView::ShowSelected(worktree.path@),
{
    (MenuState::Finished(Ok(())), MenuAction::ShowSelected(worktree.path.clone()))
}

/// Acts on the menu entry `selection` chosen among `worktrees`.
pub fn handle_menu_selection(worktrees: &Vec<Worktree>, selection: usize) -> (r: (
    MenuState,
    MenuAction,
))
    ensures
        (r.0@, r.1@) == menu_choice(views(worktrees@), selection as int),
{
    if selection == 0 {
        handle_create_new_worktree()
    } else if selection <= worktrees.len() {
        handle_existing_worktree(&worktrees[selection - 1])
    } else {
        (MenuState::Finished(Ok(())), MenuAction::Nothing)
    }
}

/// Acts on the answer to the confirmation: on yes the tool is asked to add
/// the worktree, on no the session ends with nothing done.
pub fn confirm_and_create_worktree(path: String, branch: String, confirmed: bool) -> (r: (
    MenuState,
    MenuAction,
))
    ensures
        confirmed ==> r.0@ == MenuStateView::Creating && r.1@ == MenuActionView::RunTool(
            seq!["worktree"@, "add"@, path@, branch@],
        ),
        !confirmed ==> r.0@ == MenuStateView::Finished(None) && r.1@ == MenuActionView::Nothing,
{
    if confirmed {
        (MenuState::Creating, MenuAction::RunTool(create_worktree_args(path.as_str(), branch.as_str())))
    } else {
        (MenuState::Finished(Ok(())), MenuAction::Nothing)
    }
}

/// Advances a session by one event, as `menu_step` describes.
pub fn run_interactive_worktree_menu(state: MenuState, event: MenuEvent) -> (r: (
    MenuState,
    MenuAction,
))
    ensures
        (r.0@, r.1@) == menu_step(state@, event),
{
    match (state, event) {
        (MenuState::Listing, MenuEvent::ToolFinished(out)) => match list_worktrees(&out) {
            Ok(ws) => display_worktree_menu(ws),
            Err(e) => (MenuState::Finished(Err(e)), MenuAction::Nothing),
        },
        (MenuState::Choosing(ws), MenuEvent::Selected(i)) => handle_menu_selection(&ws, i),
        (MenuState::AwaitingPath, MenuEvent::TextEntered(p)) => (
            MenuState::AwaitingBranch(p),
            MenuAction::PromptBranch,
        ),
        (MenuState::AwaitingBranch(p), MenuEvent::TextEntered(b)) => {
            let (p2, b2) = (p.clone(), b.clone());
            (MenuState::AwaitingConfirmation(p, b), MenuAction::Confirm(p2, b2))
        },
        (MenuState::AwaitingConfirmation(p, b), MenuEvent::Confirmed(yes)) => {
            confirm_and_create_worktree(p, b, yes)
        },
        (MenuState::Creating, MenuEvent::ToolFinished(out)) => match create_worktree(&out) {
            Ok(()) => (MenuState::Finished(Ok(())), MenuAction::ReportCreated),
            Err(e) => (MenuState::Finished(Err(e)), MenuAction::Nothing),
        },
        (s, _) => (s, MenuAction::Nothing),
    }
}

} // verus!
