use treeview::status::FileStatus;
use treeview::status::StatusIndex;
use treeview::status::rel_path;
use treeview::status::status_of;
use treeview::style::Color;

#[test]
fn glyphs_one_per_status() {
    assert_eq!(FileStatus::New.glyph(), 'N');
    assert_eq!(FileStatus::Modified.glyph(), 'M');
    assert_eq!(FileStatus::Deleted.glyph(), 'D');
    assert_eq!(FileStatus::Renamed.glyph(), 'R');
    assert_eq!(FileStatus::Typechange.glyph(), 'T');
    assert_eq!(FileStatus::Conflicted.glyph(), 'C');
    assert_eq!(FileStatus::Untracked.glyph(), '?');
}

#[test]
fn status_colors() {
    assert_eq!(FileStatus::New.color(), Color::Green);
    assert_eq!(FileStatus::Renamed.color(), Color::Green);
    assert_eq!(FileStatus::Modified.color(), Color::Yellow);
    assert_eq!(FileStatus::Typechange.color(), Color::Yellow);
    assert_eq!(FileStatus::Deleted.color(), Color::Red);
    assert_eq!(FileStatus::Conflicted.color(), Color::LightRed);
    assert_eq!(FileStatus::Untracked.color(), Color::Magenta);
}

#[test]
fn index_lookup_hits_and_misses() {
    let mut ix = StatusIndex::new();
    ix.insert(String::from("src/main.rs"), FileStatus::Modified);
    ix.insert(String::from("new.txt"), FileStatus::New);
    assert_eq!(ix.get("src/main.rs"), Some(FileStatus::Modified));
    assert_eq!(ix.get("new.txt"), Some(FileStatus::New));
    assert_eq!(ix.get("other.txt"), None);
    assert_eq!(ix.get(""), None);
}

#[test]
fn rel_path_strips_the_root() {
    assert_eq!(
        rel_path("/repo", "/repo/src/lib.rs"),
        Some(String::from("src/lib.rs"))
    );
    assert_eq!(rel_path("/repo", "/repo"), Some(String::from("")));
    assert_eq!(rel_path("/repo", "/elsewhere/file"), None);
    // A sibling whose name merely extends the root is outside it.
    assert_eq!(rel_path("/repo", "/repository/file"), None);
    assert_eq!(rel_path("/repo", "/rep"), None);
}

#[test]
fn status_of_translates_and_looks_up() {
    let mut ix = StatusIndex::new();
    ix.insert(String::from("a.txt"), FileStatus::Untracked);
    assert_eq!(
        status_of(&ix, "/repo", "/repo/a.txt"),
        Some(FileStatus::Untracked)
    );
    assert_eq!(status_of(&ix, "/repo", "/repo/b.txt"), None);
    assert_eq!(status_of(&ix, "/repo", "/outside/a.txt"), None);
}
