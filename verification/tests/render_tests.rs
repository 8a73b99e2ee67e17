use workty::status::WorktreeStatus;
use workty::text::{pad_left, pad_right, usize_to_string};
use workty::ui::{
    format_dirty, format_sync, max_name_len, pick_item, render_row, shorten_path, Icons, UiOptions,
};
use workty::worktree::Worktree;

fn render_wt(path: &str, branch: Option<&str>) -> Worktree {
    Worktree {
        path: path.to_string(),
        head: "abc".to_string(),
        branch: branch.map(|b| format!("refs/heads/{}", b)),
        branch_short: branch.map(|b| b.to_string()),
        detached: branch.is_none(),
        locked: false,
        prunable: false,
    }
}

fn render_status(dirty: usize, counts: Option<(usize, usize)>) -> WorktreeStatus {
    WorktreeStatus {
        dirty_count: dirty,
        upstream: counts.map(|_| "origin/x".to_string()),
        ahead: counts.map(|c| c.0),
        behind: counts.map(|c| c.1),
    }
}

#[test]
fn test_usize_to_string() {
    assert_eq!(usize_to_string(0), "0");
    assert_eq!(usize_to_string(7), "7");
    assert_eq!(usize_to_string(42), "42");
    assert_eq!(usize_to_string(90210), "90210");
}

#[test]
fn test_padding() {
    assert_eq!(pad_left("ab", 4), "  ab");
    assert_eq!(pad_left("abcde", 4), "abcde");
    assert_eq!(pad_right("ab", 4), "ab  ");
    assert_eq!(pad_right("abcde", 4), "abcde");
}

#[test]
fn test_icons_sets() {
    let u = Icons::unicode();
    assert_eq!(u.current, "\u{25b6}");
    assert_eq!(u.dirty, "\u{25cf}");
    let a = Icons::ascii();
    assert_eq!(a.current, ">");
    assert_eq!(a.clean, "-");
    let from_ascii = Icons::from_options(&UiOptions { color: false, ascii: true, json: false });
    assert_eq!(from_ascii.arrow_up, "^");
    let from_unicode = Icons::from_options(&UiOptions { color: true, ascii: false, json: false });
    assert_eq!(from_unicode.arrow_up, "\u{2191}");
}

#[test]
fn test_ui_options_default() {
    let d = UiOptions::default();
    assert!(d.color && !d.ascii && !d.json);
}

#[test]
fn test_format_dirty_column() {
    let icons = Icons::ascii();
    assert_eq!(format_dirty(&render_status(3, None), &icons), "*  3");
    assert_eq!(format_dirty(&render_status(0, None), &icons), "   -");
    assert_eq!(format_dirty(&render_status(1234, None), &icons), "*1234");
}

#[test]
fn test_format_sync_column() {
    let icons = Icons::ascii();
    assert_eq!(format_sync(&render_status(0, Some((1, 2))), &icons), "^1v2");
    assert_eq!(format_sync(&render_status(0, Some((0, 0))), &icons), "^0v0");
    assert_eq!(format_sync(&render_status(0, None), &icons), "-");
}

#[test]
fn test_shorten_path() {
    assert_eq!(shorten_path("/home/user/proj", Some("/home/user")), "~/proj");
    assert_eq!(shorten_path("/home/user", Some("/home/user")), "~/");
    assert_eq!(shorten_path("/home/username/proj", Some("/home/user")), "/home/username/proj");
    assert_eq!(shorten_path("/elsewhere", Some("/home/user")), "/elsewhere");
    assert_eq!(shorten_path("/anything", None), "/anything");
}

#[test]
fn test_max_name_len() {
    let empty: Vec<(Worktree, WorktreeStatus)> = vec![];
    assert_eq!(max_name_len(&empty), 10);
    let entries = vec![
        (render_wt("/ws/ab", Some("ab")), WorktreeStatus::default()),
        (render_wt("/ws/longer-name-here", Some("longer-name-here")), WorktreeStatus::default()),
    ];
    assert_eq!(max_name_len(&entries), 16);
}

#[test]
fn test_render_row_layout() {
    let icons = Icons::ascii();
    let wt = render_wt("/ws/feat", Some("feat"));
    let row = render_row(&wt, &render_status(2, Some((1, 0))), true, &icons, 6, "~/ws/feat");
    assert_eq!(row, "> feat    *  2    ^1v0  ~/ws/feat");
    let row = render_row(&wt, &render_status(0, None), false, &icons, 6, "~/ws/feat");
    assert_eq!(row, "  feat       -       -  ~/ws/feat");
}

#[test]
fn test_pick_item_layout() {
    let icons = Icons::ascii();
    let wt = render_wt("/ws/feat", Some("feat"));
    let line = pick_item(&wt, &render_status(3, Some((2, 1))), &icons, "~/ws/feat");
    assert_eq!(line, "feat                    *3      ^2v1   ~/ws/feat");
    let line = pick_item(&wt, &render_status(0, None), &icons, "~/ws/feat");
    assert_eq!(line, "feat                     -         -   ~/ws/feat");
}
