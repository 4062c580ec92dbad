//! Worktree records and the parser for the tool's porcelain listing.
use vstd::prelude::*;

use crate::text::{
    after_prefix, char_rows, chars_of, is_plain_line, join_lines, lemma_lines_of_joined, lines_of,
    split_lines, starts_with, string_rows,
};

verus! {

/// Number of lines the listing is read in: `worktree`, `HEAD`, `branch` or
/// `detached`, and a blank separator.
pub const CHUNK_LINES: usize = 4;

/// One worktree as the tool lists it.
#[derive(Debug, Clone, PartialEq, Eq)]
pub struct Worktree {
    /// Filesystem path of the worktree; never empty.
    pub path: String,
    /// Checked-out ref, or `detached` when none is.
    pub branch: String,
    /// Hash of the checked-out commit; empty when the listing gives none.
    pub commit: String,
}

/// A worktree record as plain character sequences.
pub struct WorktreeView {
    pub path: Seq<char>,
    pub branch: Seq<char>,
    pub commit: Seq<char>,
}

impl View for Worktree {
    type V = WorktreeView;

    open spec fn view(&self) -> WorktreeView {
        WorktreeView { path: self.path@, branch: self.branch@, commit: self.commit@ }
    }
}

/// The records of a sequence of worktrees.
pub open spec fn views(ws: Seq<Worktree>) -> Seq<WorktreeView> {
    ws.map_values(|w: Worktree| w@)
}

/// Failure of the external version-control tool.
#[derive(Debug, Clone, PartialEq, Eq)]
pub enum WorktreeError {
    /// The tool exited unsuccessfully or could not be started; holds what it
    /// reported on its error stream (or why it could not start).
    ExternalTool(String),
}

/// What one run of the external tool produced.
#[derive(Debug, Clone, PartialEq, Eq)]
pub struct ToolOutput {
    /// The tool ran and exited with status zero.
    pub success: bool,
    /// Captured standard output.
    pub stdout: String,
    /// Captured standard error, or the reason the tool could not be started.
    pub stderr: String,
}

/// The value after `key` on the first line of `chunk` that begins with it.
pub open spec fn field_value(chunk: Seq<Seq<char>>, key: Seq<char>) -> Option<Seq<char>>
    decreases chunk.len(),
{
    if chunk.len() == 0 {
        None
    } else if starts_with(chunk[0], key) {
        Some(chunk[0].skip(key.len() as int))
    } else {
        field_value(chunk.drop_first(), key)
    }
}

/// The record one chunk of listing lines stands for: present when its first
/// line is `worktree ` followed by a non-empty path.
pub open spec fn chunk_record(chunk: Seq<Seq<char>>) -> Option<WorktreeView> {
    if chunk.len() > 0 && starts_with(chunk[0], "worktree "@) && chunk[0].len()
        > "worktree "@.len() {
        Some(
            WorktreeView {
                path: chunk[0].skip("worktree "@.len() as int),
                branch: match field_value(chunk, "branch "@) {
                    Some(b) => b,
                    None => "detached"@,
                },
                commit: match field_value(chunk, "HEAD "@) {
                    Some(h) => h,
                    None => seq![],
                },
            },
        )
    } else {
        None
    }
}

/// The records a single chunk contributes: none or one.
pub open spec fn chunk_records(chunk: Seq<Seq<char>>) -> Seq<WorktreeView> {
    match chunk_record(chunk) {
        Some(w) => seq![w],
        None => seq![],
    }
}

/// The records of listing lines read in chunks of `CHUNK_LINES`, in order.
pub open spec fn parse_lines(lines: Seq<Seq<char>>) -> Seq<WorktreeView>
    decreases lines.len(),
{
    if lines.len() <= CHUNK_LINES {
        chunk_records(lines)
    } else {
        chunk_records(lines.take(CHUNK_LINES as int)) + parse_lines(
            lines.skip(CHUNK_LINES as int),
        )
    }
}

/// The records of a whole listing text.
pub open spec fn parse_listing(text: Seq<char>) -> Seq<WorktreeView> {
    parse_lines(lines_of(text))
}

/// Parsing lines that end on a chunk boundary, then the rest, is parsing
/// the whole.
pub proof fn lemma_parse_lines_append(a: Seq<Seq<char>>, b: Seq<Seq<char>>)
    requires
        a.len() % (CHUNK_LINES as nat) == 0,
    ensures
        parse_lines(a + b) == parse_lines(a) + parse_lines(b),
    decreases a.len(),
{
    let e = Seq::<WorktreeView>::empty();
    assert(chunk_record(Seq::<Seq<char>>::empty()) is None);
    assert(parse_lines(Seq::<Seq<char>>::empty()) == e);
    if a.len() == 0 {
        assert(a + b == b);
        assert(e + parse_lines(b) == parse_lines(b));
    } else if b.len() == 0 {
        assert(a + b == a);
        assert(parse_lines(a) + e == parse_lines(a));
    } else {
        let k = CHUNK_LINES as int;
        assert((a + b).take(k) == a.take(k));
        assert((a + b).skip(k) == a.skip(k) + b);
        lemma_parse_lines_append(a.skip(k), b);
        if a.len() == k {
            assert(a.take(k) == a);
            assert(a.skip(k) == Seq::<Seq<char>>::empty());
            assert(e + parse_lines(b) == parse_lines(b));
        }
        assert(parse_lines(a) == chunk_records(a.take(k)) + parse_lines(a.skip(k)));
        assert(chunk_records(a.take(k)) + (parse_lines(a.skip(k)) + parse_lines(b)) == (
        chunk_records(a.take(k)) + parse_lines(a.skip(k))) + parse_lines(b));
    }
}

/// A chunk whose first line is not a `worktree ` line yields no record and
/// leaves the records around it as they would be without it.
pub proof fn lemma_noise_chunk_skipped(a: Seq<Seq<char>>, n: Seq<Seq<char>>, b: Seq<Seq<char>>)
    requires
        a.len() % (CHUNK_LINES as nat) == 0,
        1 <= n.len() <= CHUNK_LINES,
        n.len() < CHUNK_LINES ==> b.len() == 0,
        !starts_with(n[0], "worktree "@),
    ensures
        parse_lines(a + n + b) == parse_lines(a) + parse_lines(b),
{
    let e = Seq::<WorktreeView>::empty();
    assert(parse_lines(n) == e);
    assert(a + n + b == a + (n + b));
    lemma_parse_lines_append(a, n + b);
    if b.len() == 0 {
        assert(n + b == n);
        assert(chunk_record(b) is None);
        assert(parse_lines(b) == e);
    } else {
        lemma_parse_lines_append(n, b);
    }
    assert(e + parse_lines(b) == parse_lines(b));
}

/// No line of `chunk` begins with `key`, so no value is found for it.
proof fn lemma_field_absent(chunk: Seq<Seq<char>>, key: Seq<char>)
    requires
        forall|i: int| 0 <= i < chunk.len() ==> !starts_with(#[trigger] chunk[i], key),
    ensures
        field_value(chunk, key) is None,
    decreases chunk.len(),
{
    if chunk.len() > 0 {
        let rest = chunk.drop_first();
        assert forall|i: int| 0 <= i < rest.len() implies !starts_with(#[trigger] rest[i], key) by {
            assert(rest[i] == chunk[i + 1]);
        }
        assert(!starts_with(chunk[0], key));
        lemma_field_absent(rest, key);
    }
}

/// A chunk that names a worktree yields one record; with no `branch ` line
/// its branch is `detached`, with no `HEAD ` line its commit is empty.
pub proof fn lemma_missing_fields_default(chunk: Seq<Seq<char>>)
    requires
        1 <= chunk.len() <= CHUNK_LINES,
        starts_with(chunk[0], "worktree "@),
        chunk[0].len() > "worktree "@.len(),
    ensures
        parse_lines(chunk).len() == 1,
        (forall|i: int| 0 <= i < chunk.len() ==> !starts_with(#[trigger] chunk[i], "branch "@))
            ==> parse_lines(chunk)[0].branch == "detached"@,
        (forall|i: int| 0 <= i < chunk.len() ==> !starts_with(#[trigger] chunk[i], "HEAD "@))
            ==> parse_lines(chunk)[0].commit == Seq::<char>::empty(),
{
    if forall|i: int| 0 <= i < chunk.len() ==> !starts_with(#[trigger] chunk[i], "branch "@) {
        lemma_field_absent(chunk, "branch "@);
    }
    if forall|i: int| 0 <= i < chunk.len() ==> !starts_with(#[trigger] chunk[i], "HEAD "@) {
        lemma_field_absent(chunk, "HEAD "@);
    }
}

/// The block `worktree P`, `HEAD H`, `branch B`, blank parses to the single
/// record with path P, branch B and commit H.
pub proof fn lemma_record_round_trip(p: Seq<char>, h: Seq<char>, b: Seq<char>)
    requires
        p.len() > 0,
        is_plain_line(p),
        is_plain_line(h),
        is_plain_line(b),
    ensures
        parse_listing(
            join_lines(seq!["worktree "@ + p, "HEAD "@ + h, "branch "@ + b, Seq::<char>::empty()]),
        ) == seq![WorktreeView { path: p, branch: b, commit: h }],
{
    reveal_strlit("worktree ");
    reveal_strlit("HEAD ");
    reveal_strlit("branch ");
    let wl = "worktree "@ + p;
    let hl = "HEAD "@ + h;
    let bl = "branch "@ + b;
    let ls = seq![wl, hl, bl, Seq::<char>::empty()];
    assert(is_plain_line(wl)) by {
        assert(wl.last() == p.last());
    }
    assert(is_plain_line(hl));
    assert(is_plain_line(bl));
    lemma_lines_of_joined(ls);
    assert(wl.take(9) == "worktree "@);
    assert(wl.skip(9) == p);
    assert(hl.take(5) == "HEAD "@);
    assert(hl.skip(5) == h);
    assert(bl.take(7) == "branch "@);
    assert(bl.skip(7) == b);
    assert(wl[0] == 'w' && hl[0] == 'H');
    assert(!starts_with(wl, "HEAD "@)) by {
        if starts_with(wl, "HEAD "@) {
            assert(wl.take(5)[0] == wl[0]);
        }
    }
    assert(!starts_with(wl, "branch "@)) by {
        if starts_with(wl, "branch "@) {
            assert(wl.take(7)[0] == wl[0]);
        }
    }
    assert(!starts_with(hl, "branch "@)) by {
        if starts_with(hl, "branch "@) {
            assert(hl.take(7)[0] == hl[0]);
        }
    }
    assert(ls.drop_first() == seq![hl, bl, Seq::<char>::empty()]);
    assert(ls.drop_first().drop_first() == seq![bl, Seq::<char>::empty()]);
    assert(ls.drop_first()[0] == hl);
    assert(field_value(ls.drop_first(), "HEAD "@) == Some(h));
    assert(field_value(ls, "HEAD "@) == Some(h));
    assert(ls.drop_first().drop_first()[0] == bl);
    assert(field_value(ls.drop_first().drop_first(), "branch "@) == Some(b));
    assert(field_value(ls.drop_first(), "branch "@) == Some(b));
    assert(field_value(ls, "branch "@) == Some(b));
}

/// Blocks of `CHUNK_LINES` lines that each name a worktree on their first
/// line.
pub open spec fn well_formed_blocks(blocks: Seq<Seq<Seq<char>>>) -> bool {
    forall|i: int|
        0 <= i < blocks.len() ==> {
            &&& (#[trigger] blocks[i]).len() == CHUNK_LINES
            &&& starts_with(blocks[i][0], "worktree "@)
            &&& blocks[i][0].len() > "worktree "@.len()
            &&& forall|j: int| 0 <= j < CHUNK_LINES ==> is_plain_line(#[trigger] blocks[i][j])
        }
}

/// The lines of well-formed blocks are plain, and the blocks' records are
/// their lines' records.
proof fn lemma_blocks_parse(blocks: Seq<Seq<Seq<char>>>)
    requires
        well_formed_blocks(blocks),
    ensures
        forall|k: int|
            0 <= k < blocks.flatten().len() ==> is_plain_line(#[trigger] blocks.flatten()[k]),
        parse_lines(blocks.flatten()).len() == blocks.len(),
        forall|i: int|
            0 <= i < blocks.len() ==> chunk_record(#[trigger] blocks[i]) == Some(
                parse_lines(blocks.flatten())[i],
            ),
    decreases blocks.len(),
{
    if blocks.len() == 0 {
        assert(parse_lines(blocks.flatten()) == Seq::<WorktreeView>::empty());
    } else {
        let first = blocks[0];
        let rest = blocks.drop_first();
        assert(well_formed_blocks(rest)) by {
            assert forall|i: int| 0 <= i < rest.len() implies rest[i] == blocks[i + 1] by {}
        }
        lemma_blocks_parse(rest);
        let f = blocks.flatten();
        let rf = rest.flatten();
        assert(f == first + rf);
        assert forall|k: int| 0 <= k < f.len() implies is_plain_line(#[trigger] f[k]) by {
            if k < CHUNK_LINES {
                assert(f[k] == first[k]);
            } else {
                assert(f[k] == rf[k - CHUNK_LINES]);
            }
        }
        lemma_parse_lines_append(first, rf);
        let r0 = chunk_record(first)->Some_0;
        assert(parse_lines(first) == seq![r0]);
        assert forall|i: int| 0 <= i < blocks.len() implies chunk_record(#[trigger] blocks[i])
            == Some(parse_lines(f)[i]) by {
            if i > 0 {
                assert(blocks[i] == rest[i - 1]);
            }
        }
    }
}

/// A listing of `k` well-formed blocks parses to `k` records: the i-th is
/// the record of the i-th block, with the path its first line names.
pub proof fn lemma_block_count(blocks: Seq<Seq<Seq<char>>>)
    requires
        well_formed_blocks(blocks),
    ensures
        parse_listing(join_lines(blocks.flatten())).len() == blocks.len(),
        forall|i: int|
            0 <= i < blocks.len() ==> {
                &&& chunk_record(#[trigger] blocks[i]) == Some(
                    parse_listing(join_lines(blocks.flatten()))[i],
                )
                &&& parse_listing(join_lines(blocks.flatten()))[i].path == blocks[i][0].skip(
                    "worktree "@.len() as int,
                )
            },
{
    lemma_blocks_parse(blocks);
    lemma_lines_of_joined(blocks.flatten());
}

/// The value after `key` on the first of `lines[from..to]` that begins with it.
fn find_field(lines: &Vec<Vec<char>>, from: usize, to: usize, key: &Vec<char>) -> (r: Option<
    String,
>)
    requires
        from <= to <= lines.len(),
    ensures
        r matches Some(v) ==> field_value(char_rows(lines@).subrange(from as int, to as int), key@)
            == Some(v@),
        r is None ==> field_value(char_rows(lines@).subrange(from as int, to as int), key@) is None,
{
    let ghost rows = char_rows(lines@);
    let mut i: usize = from;
    while i < to
        invariant
            from <= i <= to <= lines.len(),
            rows == char_rows(lines@),
            field_value(rows.subrange(from as int, to as int), key@) == field_value(
                rows.subrange(i as int, to as int),
                key@,
            ),
        decreases to - i,
    {
        let ghost rest = rows.subrange(i as int, to as int);
        assert(rest[0] == lines@[i as int]@);
        assert(rest.drop_first() == rows.subrange(i + 1, to as int));
        match after_prefix(&lines[i], key) {
            Some(v) => {
                return Some(v);
            },
            None => {},
        }
        i = i + 1;
    }
    None
}

/// The record that `lines[from..to]` stands for, if any.
fn parse_chunk(lines: &Vec<Vec<char>>, from: usize, to: usize) -> (r: Option<Worktree>)
    requires
        from <= to <= lines.len(),
    ensures
        r matches Some(w) ==> chunk_record(char_rows(lines@).subrange(from as int, to as int))
            == Some(w@),
        r is None ==> chunk_record(char_rows(lines@).subrange(from as int, to as int)) is None,
{
    let ghost chunk = char_rows(lines@).subrange(from as int, to as int);
    if from == to {
        return None;
    }
    assert(chunk[0] == lines@[from as int]@);
    let worktree_key = chars_of("worktree ");
    let path = match after_prefix(&lines[from], &worktree_key) {
        Some(p) => p,
        None => {
            return None;
        },
    };
    if path.as_str().is_empty() {
        return None;
    }
    let head_key = chars_of("HEAD ");
    let commit = match find_field(lines, from, to, &head_key) {
        Some(h) => h,
        None => String::new(),
    };
    let branch_key = chars_of("branch ");
    let branch = match find_field(lines, from, to, &branch_key) {
        Some(b) => b,
        None => "detached".to_owned(),
    };
    Some(Worktree { path, branch, commit })
}

/// Parses the tool's porcelain listing into worktree records, in the order
/// listed. Lines are read in chunks of `CHUNK_LINES`; a chunk that does not
/// begin with a `worktree ` line naming a path is skipped. Never fails.
pub fn parse_worktree_output(output: &str) -> (r: Result<Vec<Worktree>, WorktreeError>)
    ensures
        r matches Ok(ws) && views(ws@) == parse_listing(output@),
{
    let text = chars_of(output);
    let lines = split_lines(&text);
    let ghost rows = char_rows(lines@);
    let mut ws: Vec<Worktree> = Vec::new();
    let mut i: usize = 0;
    assert(views(ws@) == Seq::<WorktreeView>::empty());
    assert(rows.skip(0) == rows);
    while i < lines.len()
        invariant
            i <= lines.len(),
            rows == char_rows(lines@),
            rows == lines_of(output@),
            views(ws@) + parse_lines(rows.skip(i as int)) == parse_lines(rows),
        decreases lines.len() - i,
    {
        let end = if lines.len() - i <= CHUNK_LINES {
            lines.len()
        } else {
            i + CHUNK_LINES
        };
        let ghost rest = rows.skip(i as int);
        assert(rows.subrange(i as int, end as int) == if end == lines.len() {
            rest
        } else {
            rest.take(CHUNK_LINES as int)
        });
        assert(end < lines.len() ==> rest.skip(CHUNK_LINES as int) == rows.skip(end as int));
        let ghost before = ws@;
        match parse_chunk(&lines, i, end) {
            Some(w) => {
                ws.push(w);
                assert(views(ws@) == views(before) + seq![w@]);
            },
            None => {},
        }
        if end == lines.len() {
            assert(rows.skip(end as int).len() == 0);
        }
        i = end;
    }
    assert(rows.skip(i as int) == Seq::<Seq<char>>::empty());
    Ok(ws)
}


/// Arguments that make the tool list its worktrees in porcelain form.
pub fn list_worktrees_args() -> (r: Vec<String>)
    ensures
        string_rows(r@) == seq!["worktree"@, "list"@, "--porcelain"@],
{
    let r = vec!["worktree".to_owned(), "list".to_owned(), "--porcelain".to_owned()];
    assert(string_rows(r@) == seq!["worktree"@, "list"@, "--porcelain"@]);
    r
}

/// Arguments that make the tool add a worktree at `path` from `branch`,
/// both passed as given.
pub fn create_worktree_args(path: &str, branch: &str) -> (r: Vec<String>)
    ensures
        string_rows(r@) == seq!["worktree"@, "add"@, path@, branch@],
{
    let r = vec!["worktree".to_owned(), "add".to_owned(), path.to_owned(), branch.to_owned()];
    assert(string_rows(r@) == seq!["worktree"@, "add"@, path@, branch@]);
    r
}

/// Whether a run of the tool succeeded; if not, the error carries the text
/// it reported, unchanged.
pub fn check_tool_output(output: &ToolOutput) -> (r: Result<(), WorktreeError>)
    ensures
        output.success <==> r is Ok,
        r matches Err(WorktreeError::ExternalTool(m)) ==> m@ == output.stderr@,
{
    if output.success {
        Ok(())
    } else {
        Err(WorktreeError::ExternalTool(output.stderr.clone()))
    }
}

/// The worktrees from a run of the tool with `list_worktrees_args`: the
/// parsed listing when it succeeded, the tool's error otherwise.
pub fn list_worktrees(output: &ToolOutput) -> (r: Result<Vec<Worktree>, WorktreeError>)
    ensures
        output.success ==> (r matches Ok(ws) && views(ws@) == parse_listing(output.stdout@)),
        !output.success ==> (r matches Err(WorktreeError::ExternalTool(m)) && m@
            == output.stderr@),
{
    match check_tool_output(output) {
        Ok(()) => parse_worktree_output(output.stdout.as_str()),
        Err(e) => Err(e),
    }
}

/// The outcome of a run of the tool with `create_worktree_args`: nothing on
/// success, the tool's error otherwise.
pub fn create_worktree(output: &ToolOutput) -> (r: Result<(), WorktreeError>)
    ensures
        output.success <==> r is Ok,
        r matches Err(WorktreeError::ExternalTool(m)) ==> m@ == output.stderr@,
{
    check_tool_output(output)
}

} // verus!
