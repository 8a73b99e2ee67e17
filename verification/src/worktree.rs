//! The worktree registry: the `Worktree` record, parsing of the backend's
//! machine-readable worktree listing, name-based lookup and slug derivation
//! from branch names.

use vstd::prelude::*;
use vstd::string::*;
use crate::git::GitRepo;
use crate::text::{
    char_is_alnum, chars_vec, count_leading, count_trailing, find_index, first_index,
    last_index_of, leading_count, lemma_count_leading, lemma_count_trailing, lemma_find_index,
    lemma_last_index_of, range_eq_str, rfind_index, str_eq, string_from_chars, subvec,
    trailing_count,
};

verus! {

/// The mathematical value of a [`Worktree`]: its fields as character
/// sequences.
pub ghost struct WorktreeView {
    pub path: Seq<char>,
    pub head: Seq<char>,
    pub branch: Option<Seq<char>>,
    pub branch_short: Option<Seq<char>>,
    pub detached: bool,
    pub locked: bool,
    pub prunable: bool,
}

/// One checkout directory bound to the repository.
pub struct Worktree {
    /// Absolute filesystem location; unique within one registry snapshot.
    pub path: String,
    /// Commit identifier currently checked out; empty when the listing gave
    /// none.
    pub head: String,
    /// Fully qualified branch reference; absent when detached.
    pub branch: Option<String>,
    /// Display name: the branch with its reference-namespace prefix
    /// stripped.
    pub branch_short: Option<String>,
    pub detached: bool,
    pub locked: bool,
    pub prunable: bool,
}

impl View for Worktree {
    type V = WorktreeView;

    open spec fn view(&self) -> WorktreeView {
        WorktreeView {
            path: self.path@,
            head: self.head@,
            branch: match self.branch {
                Some(b) => Some(b@),
                None => None,
            },
            branch_short: match self.branch_short {
                Some(b) => Some(b@),
                None => None,
            },
            detached: self.detached,
            locked: self.locked,
            prunable: self.prunable,
        }
    }
}

impl Clone for Worktree {
    fn clone(&self) -> (r: Self)
        ensures
            r@ == self@,
    {
        Worktree {
            path: self.path.clone(),
            head: self.head.clone(),
            branch: match &self.branch {
                Some(b) => Some(b.clone()),
                None => None,
            },
            branch_short: match &self.branch_short {
                Some(b) => Some(b.clone()),
                None => None,
            },
            detached: self.detached,
            locked: self.locked,
            prunable: self.prunable,
        }
    }
}

/// The final segment of a path: the part after the last separator, with
/// trailing separators ignored; nothing for the root or the empty path.
pub open spec fn spec_file_name(p: Seq<char>) -> Option<Seq<char>> {
    let t = p.subrange(0, p.len() - count_trailing(p, '/'));
    if t.len() == 0 {
        None
    } else {
        Some(t.subrange(last_index_of(t, '/') + 1, t.len() as int))
    }
}

/// Computes the final path segment, as [`spec_file_name`] describes it.
pub fn path_file_name(p: &str) -> (r: Option<String>)
    ensures
        match r {
            Some(s) => spec_file_name(p@) == Some(s@),
            None => spec_file_name(p@) is None,
        },
{
    let cs = chars_vec(p);
    proof {
        lemma_count_trailing(cs@, '/');
    }
    let k = trailing_count(&cs, '/');
    let t = subvec(&cs, 0, cs.len() - k);
    if t.len() == 0 {
        None
    } else {
        proof {
            lemma_last_index_of(t@, '/');
        }
        match rfind_index(&t, '/') {
            Some(i) => {
                let seg = subvec(&t, i + 1, t.len());
                Some(string_from_chars(&seg))
            },
            None => {
                proof {
                    assert(t@.subrange(0, t@.len() as int) =~= t@);
                }
                Some(string_from_chars(&t))
            },
        }
    }
}

/// The display name of a worktree: its short branch name, else its final
/// path segment, else a fixed placeholder.
pub open spec fn spec_name(w: WorktreeView) -> Seq<char> {
    match w.branch_short {
        Some(b) => b,
        None => match spec_file_name(w.path) {
            Some(f) => f,
            None => "unknown"@,
        },
    }
}

impl Worktree {
    /// The name the worktree is shown and looked up under.
    pub fn name(&self) -> (r: String)
        ensures
            r@ == spec_name(self@),
    {
        match &self.branch_short {
            Some(b) => b.clone(),
            None => match path_file_name(self.path.as_str()) {
                Some(f) => f,
                None => String::from_str("unknown"),
            },
        }
    }

    /// Whether this is the main worktree: the one at the repository root.
    pub fn is_main_worktree(&self, repo: &GitRepo) -> (r: bool)
        ensures
            r == (self@.path == repo.root@),
    {
        str_eq(self.path.as_str(), repo.root.as_str())
    }
}

/// Whether a lookup by `name` matches the worktree: an exact match on the
/// short branch name, or on the final path segment.
pub open spec fn wt_matches(w: WorktreeView, name: Seq<char>) -> bool {
    w.branch_short == Some(name) || spec_file_name(w.path) == Some(name)
}

fn matches_name(w: &Worktree, name: &str) -> (r: bool)
    ensures
        r == wt_matches(w@, name@),
{
    let by_branch = match &w.branch_short {
        Some(b) => str_eq(b.as_str(), name),
        None => false,
    };
    if by_branch {
        return true;
    }
    match path_file_name(w.path.as_str()) {
        Some(f) => str_eq(f.as_str(), name),
        None => false,
    }
}

/// Finds the first worktree that `name` matches, by short branch name or
/// final path segment; `None` when nothing matches.
pub fn find_worktree<'a>(worktrees: &'a Vec<Worktree>, name: &str) -> (r: Option<&'a Worktree>)
    ensures
        match r {
            Some(w) => exists|i: int|
                0 <= i < worktrees@.len() && *w == worktrees@[i] && wt_matches(worktrees@[i]@, name@)
                    && (forall|j: int| 0 <= j < i ==> !wt_matches(worktrees@[j]@, name@)),
            None => forall|i: int| 0 <= i < worktrees@.len() ==> !wt_matches(worktrees@[i]@, name@),
        },
{
    let n = worktrees.len();
    let mut i: usize = 0;
    while i < n
        invariant
            0 <= i <= n,
            n == worktrees@.len(),
            forall|j: int| 0 <= j < i ==> !wt_matches(worktrees@[j]@, name@),
        decreases n - i,
    {
        if matches_name(&worktrees[i], name) {
            return Some(&worktrees[i]);
        }
        i = i + 1;
    }
    None
}

/// The state accumulated while reading the lines of one listing record.
pub ghost struct BuilderView {
    pub path: Option<Seq<char>>,
    pub head: Option<Seq<char>>,
    pub branch: Option<Seq<char>>,
    pub detached: bool,
    pub locked: bool,
    pub prunable: bool,
    pub bare: bool,
}

/// The builder before any line of a record has been read.
pub open spec fn empty_builder() -> BuilderView {
    BuilderView {
        path: None,
        head: None,
        branch: None,
        detached: false,
        locked: false,
        prunable: false,
        bare: false,
    }
}

/// How one record line changes the builder. A line with a space is a
/// `key value` pair; a line without one is a bare flag. Unrecognized lines
/// change nothing.
pub open spec fn apply_line(b: BuilderView, line: Seq<char>) -> BuilderView {
    let i = find_index(line, ' ');
    if 0 <= i < line.len() {
        let key = line.subrange(0, i);
        let value = line.subrange(i + 1, line.len() as int);
        if key == "worktree"@ {
            BuilderView { path: Some(value), ..b }
        } else if key == "HEAD"@ {
            BuilderView { head: Some(value), ..b }
        } else if key == "branch"@ {
            BuilderView { branch: Some(value), ..b }
        } else if key == "detached"@ {
            BuilderView { detached: true, ..b }
        } else if key == "locked"@ {
            BuilderView { locked: true, ..b }
        } else if key == "prunable"@ {
            BuilderView { prunable: true, ..b }
        } else {
            b
        }
    } else {
        if line == "detached"@ {
            BuilderView { detached: true, ..b }
        } else if line == "locked"@ {
            BuilderView { locked: true, ..b }
        } else if line == "prunable"@ {
            BuilderView { prunable: true, ..b }
        } else if line == "bare"@ {
            BuilderView { bare: true, ..b }
        } else {
            b
        }
    }
}

/// The builder state after reading all lines of a record, in order.
pub open spec fn parse_record(lines: Seq<Seq<char>>) -> BuilderView
    decreases lines.len(),
{
    if lines.len() == 0 {
        empty_builder()
    } else {
        apply_line(parse_record(lines.drop_last()), lines.last())
    }
}

/// A branch reference with the branch-namespace prefix stripped, when it
/// carries that prefix.
pub open spec fn strip_heads(b: Seq<char>) -> Seq<char> {
    if b.len() >= 11 && b.subrange(0, 11) == "refs/heads/"@ {
        b.subrange(11, b.len() as int)
    } else {
        b
    }
}

/// The worktree a finished record stands for: nothing when the record has
/// no path or is the bare repository object.
pub open spec fn build_worktree(b: BuilderView) -> Option<WorktreeView> {
    match b.path {
        None => None,
        Some(p) => if b.bare {
            None
        } else {
            Some(
                WorktreeView {
                    path: p,
                    head: match b.head {
                        Some(h) => h,
                        None => Seq::empty(),
                    },
                    branch: b.branch,
                    branch_short: match b.branch {
                        Some(br) => Some(strip_heads(br)),
                        None => None,
                    },
                    detached: b.detached,
                    locked: b.locked,
                    prunable: b.prunable,
                },
            )
        },
    }
}

pub open spec fn opt_to_seq(w: Option<WorktreeView>) -> Seq<WorktreeView> {
    match w {
        Some(x) => seq![x],
        None => Seq::empty(),
    }
}

/// The index of the first blank line, or `lines.len()` when there is none.
pub open spec fn find_blank(lines: Seq<Seq<char>>) -> int
    decreases lines.len(),
{
    if lines.len() == 0 {
        0
    } else if lines[0].len() == 0 {
        0
    } else {
        1 + find_blank(lines.drop_first())
    }
}

pub proof fn lemma_find_blank(lines: Seq<Seq<char>>)
    ensures
        0 <= find_blank(lines) <= lines.len(),
        find_blank(lines) < lines.len() ==> lines[find_blank(lines)].len() == 0,
        forall|j: int| 0 <= j < find_blank(lines) ==> lines[j].len() != 0,
    decreases lines.len(),
{
    if lines.len() > 0 && lines[0].len() != 0 {
        lemma_find_blank(lines.drop_first());
        assert forall|j: int| 0 <= j < find_blank(lines) implies lines[j].len() != 0 by {
            if j > 0 {
                assert(lines.drop_first()[j - 1].len() != 0);
            }
        }
        if find_blank(lines) < lines.len() {
            assert(lines.drop_first()[find_blank(lines.drop_first())].len() == 0);
        }
    }
}

/// The records of a listing: the maximal runs of consecutive non-blank
/// lines.
pub open spec fn record_runs(lines: Seq<Seq<char>>) -> Seq<Seq<Seq<char>>>
    decreases lines.len(),
{
    let i = find_blank(lines);
    if 0 <= i < lines.len() {
        let head = lines.subrange(0, i);
        let rest = record_runs(lines.subrange(i + 1, lines.len() as int));
        if head.len() == 0 {
            rest
        } else {
            seq![head] + rest
        }
    } else if lines.len() == 0 {
        Seq::empty()
    } else {
        seq![lines]
    }
}

/// The worktrees of a listing: one per record whose builder yields one, in
/// record order.
pub open spec fn parse_runs(runs: Seq<Seq<Seq<char>>>) -> Seq<WorktreeView>
    decreases runs.len(),
{
    if runs.len() == 0 {
        Seq::empty()
    } else {
        opt_to_seq(build_worktree(parse_record(runs.first()))) + parse_runs(runs.drop_first())
    }
}

/// Parsing distributes over concatenation of record sequences.
proof fn lemma_parse_runs_append(a: Seq<Seq<Seq<char>>>, b: Seq<Seq<Seq<char>>>)
    ensures
        parse_runs(a + b) == parse_runs(a) + parse_runs(b),
    decreases a.len(),
{
    if a.len() == 0 {
        assert(a + b =~= b);
        assert(parse_runs(a) + parse_runs(b) =~= parse_runs(b));
    } else {
        assert((a + b).first() == a.first());
        assert((a + b).drop_first() =~= a.drop_first() + b);
        lemma_parse_runs_append(a.drop_first(), b);
        let head = opt_to_seq(build_worktree(parse_record(a.first())));
        assert(head + (parse_runs(a.drop_first()) + parse_runs(b)) =~= (head + parse_runs(
            a.drop_first(),
        )) + parse_runs(b));
    }
}

/// Parsing yields exactly one worktree per record whose builder has a path
/// and is not flagged bare, in record order; every other record yields
/// none.
pub proof fn lemma_one_worktree_per_record(runs: Seq<Seq<Seq<char>>>)
    ensures
        parse_runs(runs) == runs.map_values(
            |r: Seq<Seq<char>>| build_worktree(parse_record(r)),
        ).filter(|o: Option<WorktreeView>| o is Some).map_values(
            |o: Option<WorktreeView>| o.unwrap(),
        ),
    decreases runs.len(),
{
    let f = |r: Seq<Seq<char>>| build_worktree(parse_record(r));
    let p = |o: Option<WorktreeView>| o is Some;
    let g = |o: Option<WorktreeView>| o.unwrap();
    reveal(Seq::filter);
    if runs.len() == 0 {
        assert(runs.map_values(f) =~= Seq::<Option<WorktreeView>>::empty());
        assert(runs.map_values(f).filter(p) =~= Seq::<Option<WorktreeView>>::empty());
        assert(runs.map_values(f).filter(p).map_values(g) =~= Seq::<WorktreeView>::empty());
    } else {
        let rl = runs.drop_last();
        let last = runs.last();
        lemma_one_worktree_per_record(rl);
        assert(runs =~= rl + seq![last]);
        lemma_parse_runs_append(rl, seq![last]);
        assert(seq![last].first() == last);
        assert(seq![last].drop_first() =~= Seq::<Seq<Seq<char>>>::empty());
        assert(parse_runs(Seq::<Seq<Seq<char>>>::empty()) == Seq::<WorktreeView>::empty());
        assert(opt_to_seq(f(last)) + Seq::<WorktreeView>::empty() =~= opt_to_seq(f(last)));
        assert(parse_runs(seq![last]) =~= opt_to_seq(f(last)));
        let m = runs.map_values(f);
        assert(m.drop_last() =~= rl.map_values(f));
        assert(m.last() == f(last));
        if f(last) is Some {
            assert(m.filter(p) == m.drop_last().filter(p).push(m.last()));
            assert(m.filter(p).map_values(g) =~= m.drop_last().filter(p).map_values(g).push(
                g(m.last()),
            ));
            assert(opt_to_seq(f(last)) =~= seq![g(f(last))]);
            assert(parse_runs(rl) + seq![g(f(last))] =~= parse_runs(rl).push(g(f(last))));
            assert(parse_runs(runs) == parse_runs(rl + seq![last]));
        } else {
            assert(m.filter(p) == m.drop_last().filter(p));
            assert(opt_to_seq(f(last)) =~= Seq::<WorktreeView>::empty());
            assert(parse_runs(rl) + Seq::<WorktreeView>::empty() =~= parse_runs(rl));
            assert(parse_runs(runs) == parse_runs(rl + seq![last]));
        }
    }
}

/// A blank first line starts no record and is skipped.
proof fn lemma_runs_skip_blank(lines: Seq<Seq<char>>)
    requires
        lines.len() > 0,
        lines[0].len() == 0,
    ensures
        record_runs(lines) == record_runs(lines.drop_first()),
{
    assert(find_blank(lines) == 0);
    assert(lines.subrange(0, 0).len() == 0);
    assert(lines.subrange(1, lines.len() as int) =~= lines.drop_first());
}

/// A non-blank run followed by a blank line (or the end of input) is one
/// whole record, and the remaining lines form the remaining records.
proof fn lemma_runs_flush(run: Seq<Seq<char>>, rest: Seq<Seq<char>>)
    requires
        run.len() > 0,
        forall|j: int| 0 <= j < run.len() ==> run[j].len() != 0,
        rest.len() == 0 || rest[0].len() == 0,
    ensures
        record_runs(run + rest) == seq![run] + record_runs(
            if rest.len() == 0 {
                rest
            } else {
                rest.drop_first()
            },
        ),
{
    let all = run + rest;
    lemma_find_blank(all);
    let fb = find_blank(all);
    if rest.len() == 0 {
        assert forall|j: int| 0 <= j < all.len() implies all[j].len() != 0 by {
            assert(all[j] == run[j]);
        }
        assert(fb == all.len());
        assert(all =~= run);
        assert(record_runs(all) == seq![all]);
        assert(seq![run] + record_runs(rest) =~= seq![run]);
    } else {
        assert(all[run.len() as int] == rest[0]);
        assert(fb <= run.len());
        if fb < run.len() {
            assert(all[fb] == run[fb]);
            assert(false);
        }
        assert(fb == run.len());
        assert(all.subrange(0, fb) =~= run);
        assert(all.subrange(fb + 1, all.len() as int) =~= rest.drop_first());
    }
}

/// The raw pieces of `s` between newline characters.
pub open spec fn raw_split_nl(s: Seq<char>) -> Seq<Seq<char>>
    decreases s.len(),
{
    let i = find_index(s, '\n');
    if 0 <= i < s.len() {
        seq![s.subrange(0, i)] + raw_split_nl(s.subrange(i + 1, s.len() as int))
    } else {
        seq![s]
    }
}

/// A piece with its trailing carriage return, if any, removed.
pub open spec fn strip_cr(l: Seq<char>) -> Seq<char> {
    if l.len() > 0 && l.last() == '\r' {
        l.drop_last()
    } else {
        l
    }
}

/// The lines of `s`: the pieces between newlines, without a final empty
/// piece from a terminating newline, each with a trailing carriage return
/// removed.
pub open spec fn split_lines(s: Seq<char>) -> Seq<Seq<char>> {
    let parts = raw_split_nl(s);
    let kept = if parts.len() > 0 && parts.last().len() == 0 {
        parts.drop_last()
    } else {
        parts
    };
    kept.map_values(|l: Seq<char>| strip_cr(l))
}

/// What parsing a whole listing yields.
pub open spec fn spec_parse_worktree_list(s: Seq<char>) -> Seq<WorktreeView> {
    parse_runs(record_runs(split_lines(s)))
}

spec fn views_of(parts: Seq<Vec<char>>) -> Seq<Seq<char>> {
    parts.map_values(|l: Vec<char>| l@)
}

/// Splits a listing into its lines, as [`split_lines`] describes them.
fn split_lines_exec(s: &str) -> (lines: Vec<Vec<char>>)
    ensures
        views_of(lines@) == split_lines(s@),
{
    let cs = chars_vec(s);
    let n = cs.len();
    let mut parts: Vec<Vec<char>> = Vec::new();
    let mut start: usize = 0;
    let mut j: usize = 0;
    proof {
        assert(s@.skip(0) =~= s@);
    }
    while j < n
        invariant
            0 <= start <= j <= n,
            n == cs@.len(),
            cs@ == s@,
            forall|k: int| start <= k < j ==> s@[k] != '\n',
            raw_split_nl(s@) == views_of(parts@) + raw_split_nl(s@.skip(start as int)),
        decreases n - j,
    {
        if cs[j] == '\n' {
            let piece = subvec(&cs, start, j);
            proof {
                let tail = s@.skip(start as int);
                lemma_find_index(tail, '\n');
                let fi = find_index(tail, '\n');
                assert(tail[j - start] == '\n');
                assert(fi <= j - start);
                if fi < j - start {
                    assert(tail[fi] == s@[start + fi]);
                    assert(false);
                }
                assert(fi == j - start);
                assert(tail.subrange(0, fi) =~= s@.subrange(start as int, j as int));
                assert(tail.subrange(fi + 1, tail.len() as int) =~= s@.skip(j as int + 1));
                assert(views_of(parts@.push(piece)) =~= views_of(parts@) + seq![piece@]);
                assert(raw_split_nl(s@) == views_of(parts@.push(piece)) + raw_split_nl(
                    s@.skip(j as int + 1),
                ));
            }
            parts.push(piece);
            start = j + 1;
        }
        j = j + 1;
    }
    let last_piece = subvec(&cs, start, n);
    proof {
        let tail = s@.skip(start as int);
        lemma_find_index(tail, '\n');
        let fi = find_index(tail, '\n');
        if fi < tail.len() {
            assert(tail[fi] == s@[start + fi]);
            assert(false);
        }
        assert(raw_split_nl(tail) == seq![tail]);
        assert(tail =~= s@.subrange(start as int, n as int));
        assert(views_of(parts@.push(last_piece)) =~= views_of(parts@) + seq![last_piece@]);
    }
    parts.push(last_piece);
    proof {
        assert(raw_split_nl(s@) =~= views_of(parts@));
    }
    // Drop the empty final piece a terminating newline produces.
    let plen = parts.len();
    proof {
        assert(views_of(parts@).len() == parts@.len());
    }
    if plen > 0 && parts[plen - 1].len() == 0 {
        proof {
            assert(views_of(parts@).last() == parts@.last()@);
            assert(views_of(parts@.drop_last()) =~= views_of(parts@).drop_last());
        }
        parts.pop();
    }
    let ghost kept = views_of(parts@);
    // Strip a trailing carriage return from each line.
    let m = parts.len();
    let mut lines: Vec<Vec<char>> = Vec::new();
    let mut i: usize = 0;
    while i < m
        invariant
            0 <= i <= m,
            m == parts@.len(),
            kept == views_of(parts@),
            lines@.len() == i,
            forall|k: int| 0 <= k < i ==> (#[trigger] lines@[k])@ == strip_cr(kept[k]),
        decreases m - i,
    {
        let p = &parts[i];
        let pl = p.len();
        if pl > 0 && p[pl - 1] == '\r' {
            let st = subvec(p, 0, pl - 1);
            proof {
                assert(p@.subrange(0, pl - 1) =~= p@.drop_last());
            }
            lines.push(st);
        } else {
            let st = subvec(p, 0, pl);
            proof {
                assert(p@.subrange(0, pl as int) =~= p@);
            }
            lines.push(st);
        }
        proof {
            assert(kept[i as int] == parts@[i as int]@);
        }
        i = i + 1;
    }
    proof {
        assert(views_of(lines@) =~= kept.map_values(|l: Seq<char>| strip_cr(l)));
    }
    lines
}

/// The builder a parse loop carries while inside one record.
struct Builder {
    path: Option<String>,
    head: Option<String>,
    branch: Option<String>,
    detached: bool,
    locked: bool,
    prunable: bool,
    bare: bool,
}

impl View for Builder {
    type V = BuilderView;

    closed spec fn view(&self) -> BuilderView {
        BuilderView {
            path: match self.path {
                Some(p) => Some(p@),
                None => None,
            },
            head: match self.head {
                Some(h) => Some(h@),
                None => None,
            },
            branch: match self.branch {
                Some(b) => Some(b@),
                None => None,
            },
            detached: self.detached,
            locked: self.locked,
            prunable: self.prunable,
            bare: self.bare,
        }
    }
}

fn new_builder() -> (b: Builder)
    ensures
        b@ == empty_builder(),
{
    Builder {
        path: None,
        head: None,
        branch: None,
        detached: false,
        locked: false,
        prunable: false,
        bare: false,
    }
}

fn apply_line_exec(b: Builder, line: &Vec<char>) -> (r: Builder)
    ensures
        r@ == apply_line(b@, line@),
{
    let n = line.len();
    let i = first_index(line, ' ');
    if i < n {
        if range_eq_str(line, 0, i, "worktree") {
            let v = subvec(line, i + 1, n);
            Builder { path: Some(string_from_chars(&v)), ..b }
        } else if range_eq_str(line, 0, i, "HEAD") {
            let v = subvec(line, i + 1, n);
            Builder { head: Some(string_from_chars(&v)), ..b }
        } else if range_eq_str(line, 0, i, "branch") {
            let v = subvec(line, i + 1, n);
            Builder { branch: Some(string_from_chars(&v)), ..b }
        } else if range_eq_str(line, 0, i, "detached") {
            Builder { detached: true, ..b }
        } else if range_eq_str(line, 0, i, "locked") {
            Builder { locked: true, ..b }
        } else if range_eq_str(line, 0, i, "prunable") {
            Builder { prunable: true, ..b }
        } else {
            b
        }
    } else {
        proof {
            assert(line@.subrange(0, n as int) =~= line@);
        }
        if range_eq_str(line, 0, n, "detached") {
            Builder { detached: true, ..b }
        } else if range_eq_str(line, 0, n, "locked") {
            Builder { locked: true, ..b }
        } else if range_eq_str(line, 0, n, "prunable") {
            Builder { prunable: true, ..b }
        } else if range_eq_str(line, 0, n, "bare") {
            Builder { bare: true, ..b }
        } else {
            b
        }
    }
}

/// Strips the branch-namespace prefix from a full reference.
fn strip_heads_exec(br: &String) -> (r: String)
    ensures
        r@ == strip_heads(br@),
{
    let cs = chars_vec(br.as_str());
    let n = cs.len();
    if n >= 11 {
        if range_eq_str(&cs, 0, 11, "refs/heads/") {
            let tail = subvec(&cs, 11, n);
            return string_from_chars(&tail);
        }
    }
    br.clone()
}

fn build_exec(b: Builder) -> (r: Option<Worktree>)
    ensures
        match r {
            Some(w) => build_worktree(b@) == Some(w@),
            None => build_worktree(b@) is None,
        },
{
    match b.path {
        None => None,
        Some(p) => {
            if b.bare {
                None
            } else {
                let head = match b.head {
                    Some(h) => h,
                    None => String::new(),
                };
                let (branch, branch_short) = match b.branch {
                    Some(br) => {
                        let short = strip_heads_exec(&br);
                        (Some(br), Some(short))
                    },
                    None => (None, None),
                };
                Some(
                    Worktree {
                        path: p,
                        head,
                        branch,
                        branch_short,
                        detached: b.detached,
                        locked: b.locked,
                        prunable: b.prunable,
                    },
                )
            }
        },
    }
}

/// Parses the backend's machine-readable worktree listing: records are
/// runs of non-blank lines; a record without a path, and the bare
/// repository object, yield no worktree.
pub fn parse_worktree_list(output: &str) -> (r: Vec<Worktree>)
    ensures
        r@.map_values(|w: Worktree| w@) == spec_parse_worktree_list(output@),
{
    let lines = split_lines_exec(output);
    let ghost lv = views_of(lines@);
    let n = lines.len();
    let mut worktrees: Vec<Worktree> = Vec::new();
    let mut cur: Option<Builder> = None;
    let ghost mut run: Seq<Seq<char>> = Seq::empty();
    let mut i: usize = 0;
    proof {
        assert(lv.skip(0) =~= lv);
        assert(Seq::<Seq<char>>::empty() + lv =~= lv);
    }
    while i < n
        invariant
            0 <= i <= n,
            n == lines@.len(),
            lv == views_of(lines@),
            (cur matches Some(b) ==> b@ == parse_record(run) && run.len() > 0),
            (cur is None ==> run.len() == 0),
            forall|j: int| 0 <= j < run.len() ==> run[j].len() != 0,
            parse_runs(record_runs(lv)) == worktrees@.map_values(|w: Worktree| w@) + parse_runs(
                record_runs(run + lv.skip(i as int)),
            ),
        decreases n - i,
    {
        let line = &lines[i];
        proof {
            assert(lv[i as int] == line@);
            assert(lv.skip(i as int)[0] == line@);
            assert(lv.skip(i as int) =~= seq![line@] + lv.skip(i as int + 1));
        }
        if line.len() == 0 {
            let prev = cur;
            cur = None;
            match prev {
                Some(b) => {
                    proof {
                        let rest = lv.skip(i as int);
                        lemma_runs_flush(run, rest);
                        assert(rest.drop_first() =~= lv.skip(i as int + 1));
                        let rr = record_runs(lv.skip(i as int + 1));
                        assert((seq![run] + rr).first() == run);
                        assert((seq![run] + rr).drop_first() =~= rr);
                    }
                    match build_exec(b) {
                        Some(w) => {
                            proof {
                                assert(worktrees@.push(w).map_values(|x: Worktree| x@)
                                    =~= worktrees@.map_values(|x: Worktree| x@).push(w@));
                                assert(opt_to_seq(Some(w@)) =~= seq![w@]);
                            }
                            worktrees.push(w);
                        },
                        None => {
                            proof {
                                assert(opt_to_seq(build_worktree(parse_record(run)))
                                    =~= Seq::<WorktreeView>::empty());
                            }
                        },
                    }
                    proof {
                        run = Seq::empty();
                        assert(run + lv.skip(i as int + 1) =~= lv.skip(i as int + 1));
                    }
                },
                None => {
                    proof {
                        assert(run + lv.skip(i as int) =~= lv.skip(i as int));
                        lemma_runs_skip_blank(lv.skip(i as int));
                        assert(lv.skip(i as int).drop_first() =~= lv.skip(i as int + 1));
                        assert(run + lv.skip(i as int + 1) =~= lv.skip(i as int + 1));
                    }
                },
            }
        } else {
            let prev = cur;
            let b0 = match prev {
                Some(b) => b,
                None => new_builder(),
            };
            let b1 = apply_line_exec(b0, line);
            cur = Some(b1);
            proof {
                assert(run + lv.skip(i as int) =~= run.push(line@) + lv.skip(i as int + 1));
                let run2 = run.push(line@);
                assert(run2.drop_last() =~= run);
                assert(run2.last() == line@);
                run = run2;
            }
        }
        i = i + 1;
    }
    let ghost mapped_pre = worktrees@.map_values(|w: Worktree| w@);
    proof {
        assert(lv.skip(n as int) =~= Seq::<Seq<char>>::empty());
        assert(run + lv.skip(n as int) =~= run);
    }
    match cur {
        Some(b) => {
            proof {
                lemma_runs_flush(run, Seq::empty());
                assert(run + Seq::<Seq<char>>::empty() =~= run);
                assert(record_runs(Seq::<Seq<char>>::empty()) =~= Seq::<Seq<Seq<char>>>::empty());
                let runs = record_runs(run);
                assert(runs =~= seq![run]);
                assert(runs.first() == run);
                assert(runs.drop_first() =~= Seq::<Seq<Seq<char>>>::empty());
                assert(parse_runs(runs.drop_first()) =~= Seq::<WorktreeView>::empty());
                assert(parse_runs(runs) =~= opt_to_seq(build_worktree(parse_record(run))));
            }
            match build_exec(b) {
                Some(w) => {
                    proof {
                        assert(opt_to_seq(build_worktree(parse_record(run))) =~= seq![w@]);
                        assert(mapped_pre + seq![w@] =~= mapped_pre.push(w@));
                        assert(worktrees@.push(w).map_values(|x: Worktree| x@) =~= mapped_pre.push(
                            w@,
                        ));
                    }
                    worktrees.push(w);
                },
                None => {
                    proof {
                        assert(opt_to_seq(build_worktree(parse_record(run)))
                            =~= Seq::<WorktreeView>::empty());
                        assert(mapped_pre + Seq::<WorktreeView>::empty() =~= mapped_pre);
                    }
                },
            }
        },
        None => {
            proof {
                assert(run =~= Seq::<Seq<char>>::empty());
                assert(record_runs(Seq::<Seq<char>>::empty()) =~= Seq::<Seq<Seq<char>>>::empty());
                assert(parse_runs(Seq::<Seq<Seq<char>>>::empty()) =~= Seq::<WorktreeView>::empty());
                assert(mapped_pre + Seq::<WorktreeView>::empty() =~= mapped_pre);
            }
        },
    }
    worktrees
}

/// The character a branch-name character maps to in a slug: kept when
/// alphanumeric or one of `-`, `_`; replaced by `-` otherwise.
pub open spec fn slug_char(c: char) -> char {
    if char_is_alnum(c) || c == '-' || c == '_' {
        c
    } else {
        '-'
    }
}

/// `s` with every leading and trailing `-` removed.
pub open spec fn spec_trim_dashes(s: Seq<char>) -> Seq<char> {
    let a = count_leading(s, '-');
    if a == s.len() {
        Seq::empty()
    } else {
        s.subrange(a, s.len() - count_trailing(s, '-'))
    }
}

/// The filesystem-safe slug of a branch name: every character that is not
/// alphanumeric, `-` or `_` becomes `-`, then leading and trailing `-` are
/// trimmed.
pub open spec fn spec_slug(s: Seq<char>) -> Seq<char> {
    spec_trim_dashes(s.map_values(|c: char| slug_char(c)))
}

/// Derives the directory slug for a branch name.
pub fn slug_from_branch(branch: &str) -> (r: String)
    ensures
        r@ == spec_slug(branch@),
{
    let cs = chars_vec(branch);
    let n = cs.len();
    let mut mapped: Vec<char> = Vec::new();
    let mut i: usize = 0;
    while i < n
        invariant
            0 <= i <= n,
            n == cs@.len(),
            mapped@.len() == i,
            forall|j: int| 0 <= j < i ==> mapped@[j] == slug_char(cs@[j]),
        decreases n - i,
    {
        let c = cs[i];
        if c.is_alphanumeric() || c == '-' || c == '_' {
            mapped.push(c);
        } else {
            mapped.push('-');
        }
        i = i + 1;
    }
    proof {
        assert(mapped@ =~= cs@.map_values(|c: char| slug_char(c)));
        lemma_count_leading(mapped@, '-');
        lemma_count_trailing(mapped@, '-');
    }
    let a = leading_count(&mapped, '-');
    if a == mapped.len() {
        String::new()
    } else {
        let b = trailing_count(&mapped, '-');
        proof {
            if a >= mapped@.len() - b {
                assert(mapped@[a as int] == '-');
            }
        }
        let t = subvec(&mapped, a, mapped.len() - b);
        string_from_chars(&t)
    }
}

/// Every character of a slug is alphanumeric, `-` or `_`, and a nonempty
/// slug neither starts nor ends with `-`.
pub proof fn lemma_slug_chars(s: Seq<char>)
    ensures
        forall|i: int|
            0 <= i < spec_slug(s).len() ==> (char_is_alnum(#[trigger] spec_slug(s)[i])
                || spec_slug(s)[i] == '-' || spec_slug(s)[i] == '_'),
        spec_slug(s).len() > 0 ==> spec_slug(s)[0] != '-',
        spec_slug(s).len() > 0 ==> spec_slug(s).last() != '-',
{
    let m = s.map_values(|c: char| slug_char(c));
    lemma_count_leading(m, '-');
    lemma_count_trailing(m, '-');
    let a = count_leading(m, '-');
    let b = count_trailing(m, '-');
    if a != m.len() {
        if a >= m.len() - b {
            assert(m[a] == '-');
        }
        assert forall|i: int| 0 <= i < spec_slug(s).len() implies (char_is_alnum(
            #[trigger] spec_slug(s)[i],
        ) || spec_slug(s)[i] == '-' || spec_slug(s)[i] == '_') by {
            assert(spec_slug(s)[i] == m[a + i]);
            assert(m[a + i] == slug_char(s[a + i]));
        }
        if spec_slug(s).len() > 0 {
            assert(spec_slug(s)[0] == m[a]);
            assert(spec_slug(s).last() == m[m.len() - b - 1]);
        }
    }
}

/// Slug derivation is idempotent: a slug is its own slug.
pub proof fn lemma_slugify_idempotent(s: Seq<char>)
    ensures
        spec_slug(spec_slug(s)) == spec_slug(s),
{
    let t = spec_slug(s);
    lemma_slug_chars(s);
    let m = t.map_values(|c: char| slug_char(c));
    assert forall|i: int| 0 <= i < t.len() implies m[i] == t[i] by {
        assert(char_is_alnum(t[i]) || t[i] == '-' || t[i] == '_');
    }
    assert(m =~= t);
    if t.len() == 0 {
        assert(count_leading(t, '-') == 0);
        assert(spec_slug(t) =~= t);
    } else {
        assert(t[0] != '-');
        assert(t.last() != '-');
        assert(count_leading(t, '-') == 0);
        assert(count_trailing(t, '-') == 0);
        assert(spec_slug(t) =~= t.subrange(0, t.len() as int));
        assert(t.subrange(0, t.len() as int) =~= t);
    }
}

} // verus!
