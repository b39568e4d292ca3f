use treeview::status::FileStatus;
use treeview::status::StatusIndex;
use treeview::style::Color;
use treeview::style::TextStyle;
use treeview::walk::ColorChoice;
use treeview::walk::FileEntry;
use treeview::walk::ViewArgs;
use treeview::walk::decorate_entries;
use treeview::walk::decorate_entry;
use treeview::walk::format_permissions;
use treeview::walk::format_size;
use treeview::walk::header_line;
use treeview::walk::needs_metadata;
use treeview::walk::path_mode_check;
use treeview::walk::render_lines;
use treeview::walk::summary_line;

fn entry(name: &str, depth: usize, is_dir: bool) -> FileEntry {
    FileEntry {
        path: String::from(name),
        name: String::from(name),
        depth,
        is_dir,
        size: None,
        mode: None,
        canonical: None,
        name_style: None,
    }
}

const DIM_EMPTY: &str = "\u{1b}[2m\u{1b}[0m";

#[test]
fn color_choice_strings() {
    assert_eq!(ColorChoice::Always.as_str(), "always");
    assert_eq!(ColorChoice::Auto.as_str(), "auto");
    assert_eq!(ColorChoice::Never.as_str(), "never");
    assert_eq!(ColorChoice::default(), ColorChoice::Auto);
}

#[test]
fn default_args_toggle_nothing_on() {
    let args = ViewArgs::default();
    assert_eq!(args.path, "");
    assert!(args.level.is_none());
    assert!(!args.dirs_only && !args.size && !args.permissions);
    assert!(!args.all && !args.gitignore && !args.git_status && !args.icons);
    assert!(!needs_metadata(&args));
}

#[test]
fn path_mode_bundle_toggles_the_reference_options() {
    let args = ViewArgs::path_mode(String::from("some/folder"));
    assert_eq!(args.path, "some/folder");
    assert_eq!(args.color, ColorChoice::Always);
    assert!(args.level.is_none());
    assert!(!args.dirs_only && !args.gitignore);
    assert!(args.size && args.permissions && args.all && args.git_status && args.icons);
}

#[test]
fn metadata_is_wanted_only_for_size_or_permissions() {
    let mut args = ViewArgs::default();
    args.size = true;
    assert!(needs_metadata(&args));
    args.size = false;
    args.permissions = true;
    assert!(needs_metadata(&args));
}

#[test]
fn bare_line_has_connector_and_dimmed_empty_columns() {
    let args = ViewArgs::default();
    let line = decorate_entry(&args, &entry("hello", 1, false), None, "", None);
    assert_eq!(line, format!("{DIM_EMPTY}└── hello{DIM_EMPTY}"));
}

#[test]
fn deeper_entries_are_indented_four_spaces_per_level() {
    let args = ViewArgs::default();
    let line = decorate_entry(&args, &entry("deep", 3, false), None, "", None);
    assert_eq!(line, format!("{DIM_EMPTY}        └── deep{DIM_EMPTY}"));
}

#[test]
fn permission_bits_render_as_rwx_triples() {
    assert_eq!(format_permissions(0o755), "rwxr-xr-x");
    assert_eq!(format_permissions(0o644), "rw-r--r--");
    assert_eq!(format_permissions(0o000), "---------");
    assert_eq!(format_permissions(0o777), "rwxrwxrwx");
}

#[test]
fn permission_column_prefixes_type_character() {
    let mut args = ViewArgs::default();
    args.permissions = true;
    let mut e = entry("sub", 1, true);
    e.mode = Some(0o755);
    let line = decorate_entry(&args, &e, None, "", None);
    assert_eq!(
        line,
        format!("\u{1b}[2mdrwxr-xr-x \u{1b}[0m└── sub{DIM_EMPTY}")
    );
    let mut f = entry("f.txt", 1, false);
    f.mode = Some(0o644);
    let line = decorate_entry(&args, &f, None, "", None);
    assert_eq!(
        line,
        format!("\u{1b}[2m-rw-r--r-- \u{1b}[0m└── f.txt{DIM_EMPTY}")
    );
}

#[test]
fn unknown_permission_bits_render_as_dashes() {
    let mut args = ViewArgs::default();
    args.permissions = true;
    let line = decorate_entry(&args, &entry("f", 1, false), None, "", None);
    assert_eq!(
        line,
        format!("\u{1b}[2m---------- \u{1b}[0m└── f{DIM_EMPTY}")
    );
}

#[test]
fn sizes_use_binary_units_with_one_fraction_digit() {
    assert_eq!(format_size(0), "0 B");
    assert_eq!(format_size(500), "500 B");
    assert_eq!(format_size(1023), "1023 B");
    assert_eq!(format_size(1024), "1.0 KiB");
    assert_eq!(format_size(1536), "1.5 KiB");
    assert_eq!(format_size(1048576), "1.0 MiB");
    assert_eq!(format_size(1073741824), "1.0 GiB");
    assert_eq!(format_size(1099511627776), "1.0 TiB");
}

#[test]
fn size_suffix_only_for_files() {
    let mut args = ViewArgs::default();
    args.size = true;
    let mut f = entry("f.bin", 1, false);
    f.size = Some(1536);
    let line = decorate_entry(&args, &f, None, "", None);
    assert_eq!(
        line,
        format!("{DIM_EMPTY}└── f.bin\u{1b}[2m (1.5 KiB)\u{1b}[0m")
    );
    let mut d = entry("sub", 1, true);
    d.size = Some(1536);
    let line = decorate_entry(&args, &d, None, "", None);
    assert_eq!(line, format!("{DIM_EMPTY}└── sub{DIM_EMPTY}"));
}

#[test]
fn status_glyph_is_painted_with_its_color() {
    let mut args = ViewArgs::default();
    args.git_status = true;
    let mut ix = StatusIndex::new();
    ix.insert(String::from("f.txt"), FileStatus::Modified);
    let mut e = entry("f.txt", 1, false);
    e.canonical = Some(String::from("/repo/f.txt"));
    let line = decorate_entry(&args, &e, Some(&ix), "/repo", None);
    assert_eq!(
        line,
        format!("\u{1b}[33mM \u{1b}[0m{DIM_EMPTY}└── f.txt{DIM_EMPTY}")
    );
}

#[test]
fn status_miss_degrades_to_two_blanks() {
    let mut args = ViewArgs::default();
    args.git_status = true;
    let ix = StatusIndex::new();
    let mut e = entry("f.txt", 1, false);
    e.canonical = Some(String::from("/repo/f.txt"));
    let line = decorate_entry(&args, &e, Some(&ix), "/repo", None);
    assert_eq!(line, format!("  {DIM_EMPTY}└── f.txt{DIM_EMPTY}"));
    // No canonical path: same degradation, no failure.
    let e2 = entry("g.txt", 1, false);
    let line = decorate_entry(&args, &e2, Some(&ix), "/repo", None);
    assert_eq!(line, format!("  {DIM_EMPTY}└── g.txt{DIM_EMPTY}"));
}

#[test]
fn no_repository_means_no_status_column_at_all() {
    // Status display requested, but no repository was recognized: every
    // line is exactly what it would be with status display off.
    let mut with_status = ViewArgs::default();
    with_status.git_status = true;
    let without_status = ViewArgs::default();
    let mut e = entry("f.txt", 1, false);
    e.canonical = Some(String::from("/repo/f.txt"));
    let a = decorate_entry(&with_status, &e, None, "/repo", None);
    let b = decorate_entry(&without_status, &e, None, "/repo", None);
    assert_eq!(a, b);
}

#[test]
fn icon_column_paints_the_table_glyph_with_its_color() {
    let mut args = ViewArgs::default();
    args.icons = true;
    let out = decorate_entries(&args, &vec![entry("main.rs", 1, false)], None, "");
    assert_eq!(out.lines.len(), 1);
    // The icon table assigns Rust sources a known glyph and hex color;
    // the hex token must come back as an RGB escape around the glyph.
    assert_eq!(
        out.lines[0],
        format!("{DIM_EMPTY}└── \u{1b}[38;2;222;165;132m\u{e68b} \u{1b}[0mmain.rs{DIM_EMPTY}")
    );
}

#[test]
fn name_style_wraps_the_name_only() {
    let args = ViewArgs::default();
    let mut e = entry("dir", 1, true);
    e.name_style = Some(TextStyle {
        fg: Some(Color::Blue),
        bold: true,
        dimmed: false,
        italic: false,
        underline: false,
    });
    let line = decorate_entry(&args, &e, None, "", None);
    assert_eq!(
        line,
        format!("{DIM_EMPTY}└── \u{1b}[1;34mdir\u{1b}[0m{DIM_EMPTY}")
    );
}

#[test]
fn root_is_never_emitted() {
    let args = ViewArgs::default();
    let out = decorate_entries(&args, &vec![entry("root", 0, true), entry("a", 1, false)], None, "");
    assert_eq!(out.lines.len(), 1);
    assert_eq!(out.dirs, 0);
    assert_eq!(out.files, 1);
}

#[test]
fn one_file_one_subdir_summary() {
    // A walk over a directory with one file and one non-empty
    // subdirectory whose content is hidden: the summary counts one of
    // each.
    let args = ViewArgs::default();
    let entries = vec![
        entry("root", 0, true),
        entry("a.txt", 1, false),
        entry("sub", 1, true),
        entry(".inside", 2, false),
    ];
    let out = decorate_entries(&args, &entries, None, "");
    assert_eq!(out.dirs, 1);
    assert_eq!(out.files, 1);
    let finished = render_lines(out);
    assert_eq!(finished.len(), 4);
    assert_eq!(finished[finished.len() - 2], "");
    assert_eq!(finished[finished.len() - 1], "1 directories, 1 files");
}

#[test]
fn depth_limit_filters_everything_deeper() {
    let mut args = ViewArgs::default();
    args.level = Some(1);
    args.all = true;
    args.git_status = true;
    let entries = vec![
        entry("a", 1, false),
        entry("sub", 1, true),
        entry("deep", 2, false),
        entry("deeper", 3, true),
    ];
    let out = decorate_entries(&args, &entries, None, "");
    assert_eq!(out.lines.len(), 2);
    assert_eq!(out.dirs, 1);
    assert_eq!(out.files, 1);
}

#[test]
fn dirs_only_emits_exactly_the_directories() {
    let mut args = ViewArgs::default();
    args.dirs_only = true;
    let entries = vec![
        entry("a", 1, false),
        entry("d1", 1, true),
        entry("b", 2, false),
        entry("d2", 2, true),
        entry("c", 1, false),
        entry("d3", 1, true),
    ];
    let out = decorate_entries(&args, &entries, None, "");
    assert_eq!(out.lines.len(), 3);
    assert_eq!(out.dirs, 3);
    assert_eq!(out.files, 0);
}

#[test]
fn hidden_names_are_skipped_unless_all() {
    let entries = vec![entry(".git", 1, true), entry("src", 1, true)];
    let args = ViewArgs::default();
    let out = decorate_entries(&args, &entries, None, "");
    assert_eq!(out.lines.len(), 1);
    let mut all = ViewArgs::default();
    all.all = true;
    let out = decorate_entries(&all, &entries, None, "");
    assert_eq!(out.lines.len(), 2);
}

#[test]
fn summary_line_exact() {
    assert_eq!(summary_line(0, 0), "0 directories, 0 files");
    assert_eq!(summary_line(12, 345), "12 directories, 345 files");
}

#[test]
fn header_is_painted_bold() {
    assert_eq!(
        header_line("some/folder"),
        nu_ansi_term::Style::new().bold().paint("some/folder").to_string()
    );
}

#[test]
fn non_directory_path_is_a_single_fatal_error() {
    assert_eq!(path_mode_check("some/folder", true), Ok(()));
    let err = path_mode_check("not-a-dir.txt", false).unwrap_err();
    assert_eq!(err, "'not-a-dir.txt' is not a directory.");
}
