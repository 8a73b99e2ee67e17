//! Presentation values and row formatting for the dashboard and the
//! interactive picker: icon sets, dirty and sync columns, path shortening
//! and whole rows as plain strings. Printing, color and JSON encoding stay
//! outside the library.

use vstd::prelude::*;
use vstd::string::*;
use crate::status::{StatusView, WorktreeStatus};
use crate::text::{
    chars_vec, pad_left, pad_right, range_eq_str, spec_decimal, spec_pad_left, spec_pad_right,
    str_eq, string_from_chars, subvec, usize_to_string,
};
use crate::worktree::{spec_name, Worktree, WorktreeView};

verus! {

/// Global output options.
#[derive(Clone, Copy)]
pub struct UiOptions {
    pub color: bool,
    pub ascii: bool,
    pub json: bool,
}

impl Default for UiOptions {
    /// Colored, non-ASCII, human-readable output.
    fn default() -> (r: Self)
        ensures
            r.color && !r.ascii && !r.json,
    {
        UiOptions { color: true, ascii: false, json: false }
    }
}

/// The symbols the listing uses.
pub struct Icons {
    pub current: &'static str,
    pub dirty: &'static str,
    pub clean: &'static str,
    pub arrow_up: &'static str,
    pub arrow_down: &'static str,
}

impl Icons {
    pub fn unicode() -> (r: Icons)
        ensures
            r.current@ == "\u{25b6}"@,
            r.dirty@ == "\u{25cf}"@,
            r.clean@ == "\u{2713}"@,
            r.arrow_up@ == "\u{2191}"@,
            r.arrow_down@ == "\u{2193}"@,
    {
        Icons {
            current: "\u{25b6}",
            dirty: "\u{25cf}",
            clean: "\u{2713}",
            arrow_up: "\u{2191}",
            arrow_down: "\u{2193}",
        }
    }

    pub fn ascii() -> (r: Icons)
        ensures
            r.current@ == ">"@,
            r.dirty@ == "*"@,
            r.clean@ == "-"@,
            r.arrow_up@ == "^"@,
            r.arrow_down@ == "v"@,
    {
        Icons { current: ">", dirty: "*", clean: "-", arrow_up: "^", arrow_down: "v" }
    }

    /// The ASCII set when ASCII output was asked for, else the full set.
    pub fn from_options(opts: &UiOptions) -> (r: Icons)
        ensures
            opts.ascii ==> (r.current@ == ">"@ && r.dirty@ == "*"@ && r.clean@ == "-"@
                && r.arrow_up@ == "^"@ && r.arrow_down@ == "v"@),
            !opts.ascii ==> (r.current@ == "\u{25b6}"@ && r.dirty@ == "\u{25cf}"@ && r.clean@
                == "\u{2713}"@ && r.arrow_up@ == "\u{2191}"@ && r.arrow_down@ == "\u{2193}"@),
    {
        if opts.ascii {
            Icons::ascii()
        } else {
            Icons::unicode()
        }
    }
}

/// The dirty column of the dashboard: the dirty symbol and the count in a
/// three-character field, or the clean symbol in a four-character field.
pub open spec fn spec_format_dirty(st: StatusView, icons: Icons) -> Seq<char> {
    if st.dirty_count > 0 {
        icons.dirty@ + spec_pad_left(spec_decimal(st.dirty_count), 3)
    } else {
        spec_pad_left(icons.clean@, 4)
    }
}

/// Formats the dirty column of the dashboard.
pub fn format_dirty(status: &WorktreeStatus, icons: &Icons) -> (r: String)
    ensures
        r@ == spec_format_dirty(status@, *icons),
{
    if status.dirty_count > 0 {
        let digits = usize_to_string(status.dirty_count);
        let padded = pad_left(digits.as_str(), 3);
        let mut r = String::new();
        r.append(icons.dirty);
        r.append(padded.as_str());
        r
    } else {
        pad_left(icons.clean, 4)
    }
}

/// The sync column: ahead and behind counts behind their arrows when both
/// are known, a dash otherwise.
pub open spec fn spec_format_sync(st: StatusView, icons: Icons) -> Seq<char> {
    match (st.ahead, st.behind) {
        (Some(a), Some(b)) => icons.arrow_up@ + spec_decimal(a) + icons.arrow_down@ + spec_decimal(
            b,
        ),
        _ => "-"@,
    }
}

/// Formats the sync column.
pub fn format_sync(status: &WorktreeStatus, icons: &Icons) -> (r: String)
    ensures
        r@ == spec_format_sync(status@, *icons),
{
    match (status.ahead, status.behind) {
        (Some(a), Some(b)) => {
            let ad = usize_to_string(a);
            let bd = usize_to_string(b);
            let mut r = String::new();
            r.append(icons.arrow_up);
            r.append(ad.as_str());
            r.append(icons.arrow_down);
            r.append(bd.as_str());
            r
        },
        _ => String::from_str("-"),
    }
}

/// A path with the home directory replaced by a tilde: the home directory
/// itself and paths under it are shown relative to `~`.
pub open spec fn spec_shorten_path(p: Seq<char>, home: Seq<char>) -> Seq<char> {
    if p == home {
        "~/"@
    } else if p.len() > home.len() && p.subrange(0, home.len() as int) == home && p[home.len() as int]
        == '/' {
        "~/"@ + p.skip(home.len() as int + 1)
    } else {
        p
    }
}

/// Shortens a path against the home directory, when one is known.
pub fn shorten_path(path: &str, home: Option<&str>) -> (r: String)
    ensures
        match home {
            Some(h) => r@ == spec_shorten_path(path@, h@),
            None => r@ == path@,
        },
{
    match home {
        Some(h) => {
            if str_eq(path, h) {
                String::from_str("~/")
            } else {
                let pl = path.unicode_len();
                let hl = h.unicode_len();
                if pl > hl {
                    let cs = chars_vec(path);
                    if range_eq_str(&cs, 0, hl, h) && cs[hl] == '/' {
                        let rest = subvec(&cs, hl + 1, pl);
                        let rest_s = string_from_chars(&rest);
                        let mut r = String::new();
                        r.append("~/");
                        r.append(rest_s.as_str());
                        proof {
                            assert(cs@.subrange(hl + 1, pl as int) =~= path@.skip(hl + 1));
                        }
                        r
                    } else {
                        String::from_str(path)
                    }
                } else {
                    String::from_str(path)
                }
            }
        },
        None => String::from_str(path),
    }
}

/// The widest display name in the listing, with a floor of ten characters
/// used when the listing is empty.
pub open spec fn spec_max_name_len(s: Seq<(WorktreeView, StatusView)>) -> nat
    decreases s.len(),
{
    if s.len() == 0 {
        10
    } else {
        let rest = spec_max_name_len(s.drop_last());
        let nl = spec_name(s.last().0).len();
        if nl > rest {
            nl
        } else {
            rest
        }
    }
}

/// Computes the widest display name of the listing.
pub fn max_name_len(worktrees: &Vec<(Worktree, WorktreeStatus)>) -> (r: usize)
    ensures
        r == spec_max_name_len(
            worktrees@.map_values(|p: (Worktree, WorktreeStatus)| (p.0@, p.1@)),
        ),
{
    let ghost pv = worktrees@.map_values(|p: (Worktree, WorktreeStatus)| (p.0@, p.1@));
    let n = worktrees.len();
    let mut r: usize = 10;
    let mut i: usize = 0;
    proof {
        assert(pv.subrange(0, 0) =~= Seq::<(WorktreeView, StatusView)>::empty());
    }
    while i < n
        invariant
            0 <= i <= n,
            n == worktrees@.len(),
            pv == worktrees@.map_values(|p: (Worktree, WorktreeStatus)| (p.0@, p.1@)),
            r == spec_max_name_len(pv.subrange(0, i as int)),
        decreases n - i,
    {
        let name = worktrees[i].0.name();
        let nl = name.as_str().unicode_len();
        proof {
            let pr = pv.subrange(0, i as int + 1);
            assert(pr.drop_last() =~= pv.subrange(0, i as int));
            assert(pr.last() == pv[i as int]);
            assert(pv[i as int].0 == worktrees@[i as int].0@);
        }
        if nl > r {
            r = nl;
        }
        i = i + 1;
    }
    proof {
        assert(pv.subrange(0, n as int) =~= pv);
    }
    r
}

/// One dashboard row: marker, padded name, dirty column, sync column in a
/// six-character field, and the shortened path, separated by fixed gaps.
pub open spec fn spec_render_row(
    w: WorktreeView,
    st: StatusView,
    is_current: bool,
    icons: Icons,
    name_width: nat,
    path_str: Seq<char>,
) -> Seq<char> {
    (if is_current {
        icons.current@
    } else {
        " "@
    }) + " "@ + spec_pad_right(spec_name(w), name_width) + "  "@ + spec_format_dirty(st, icons)
        + "  "@ + spec_pad_left(spec_format_sync(st, icons), 6) + "  "@ + path_str
}

/// Renders one dashboard row, without color.
pub fn render_row(
    worktree: &Worktree,
    status: &WorktreeStatus,
    is_current: bool,
    icons: &Icons,
    name_width: usize,
    path_str: &str,
) -> (r: String)
    ensures
        r@ == spec_render_row(worktree@, status@, is_current, *icons, name_width as nat, path_str@),
{
    let name = worktree.name();
    let name_padded = pad_right(name.as_str(), name_width);
    let dirty_str = format_dirty(status, icons);
    let sync_str = format_sync(status, icons);
    let sync_padded = pad_left(sync_str.as_str(), 6);
    let mut r = String::new();
    if is_current {
        r.append(icons.current);
    } else {
        r.append(" ");
    }
    r.append(" ");
    r.append(name_padded.as_str());
    r.append("  ");
    r.append(dirty_str.as_str());
    r.append("  ");
    r.append(sync_padded.as_str());
    r.append("  ");
    r.append(path_str);
    r
}

/// The dirty part of a picker item: the dirty symbol and the count, or the
/// clean symbol.
pub open spec fn spec_pick_dirty(st: StatusView, icons: Icons) -> Seq<char> {
    if st.dirty_count > 0 {
        icons.dirty@ + spec_decimal(st.dirty_count)
    } else {
        icons.clean@
    }
}

/// One picker item: name in a twenty-character field, dirty part in a
/// four-character field, sync part in an eight-character field, and the
/// shortened path.
pub open spec fn spec_pick_item(
    w: WorktreeView,
    st: StatusView,
    icons: Icons,
    path_str: Seq<char>,
) -> Seq<char> {
    spec_pad_right(spec_name(w), 20) + "  "@ + spec_pad_left(spec_pick_dirty(st, icons), 4) + "  "@
        + spec_pad_left(spec_format_sync(st, icons), 8) + "   "@ + path_str
}

/// Renders one line of the interactive picker.
pub fn pick_item(worktree: &Worktree, status: &WorktreeStatus, icons: &Icons, path_str: &str) -> (r:
    String)
    ensures
        r@ == spec_pick_item(worktree@, status@, *icons, path_str@),
{
    let name = worktree.name();
    let name_padded = pad_right(name.as_str(), 20);
    let dirty_str = if status.dirty_count > 0 {
        let digits = usize_to_string(status.dirty_count);
        let mut d = String::new();
        d.append(icons.dirty);
        d.append(digits.as_str());
        d
    } else {
        String::from_str(icons.clean)
    };
    let dirty_padded = pad_left(dirty_str.as_str(), 4);
    let sync_str = format_sync(status, icons);
    let sync_padded = pad_left(sync_str.as_str(), 8);
    let mut r = String::new();
    r.append(name_padded.as_str());
    r.append("  ");
    r.append(dirty_padded.as_str());
    r.append("  ");
    r.append(sync_padded.as_str());
    r.append("   ");
    r.append(path_str);
    r
}

} // verus!
