//! The directory walker's decoration engine.
//!
//! The caller enumerates filesystem entries (honoring ignore rules) and
//! hands them over as plain [`FileEntry`] values; this module applies the
//! depth, hidden-name and type filters, resolves the status and icon
//! decorations, and produces one fully styled display line per surviving
//! entry, together with the directory and file totals and the trailing
//! summary line.

use vstd::prelude::*;

use crate::icons::file_icon;
use crate::status::FileStatus;
use crate::status::StatusIndex;
use crate::status::spec_glyph;
use crate::status::spec_status_color;
use crate::status::spec_status_of;
use crate::status::status_of;
use crate::style::Color;
use crate::style::TextStyle;
use crate::style::paint;
use crate::style::painted;
use crate::style::spec_lookup_color;
use crate::style::lookup_ansi_color_style;
use crate::text::dec_seq;
use crate::text::fmt_u64;
use crate::text::push_char;
use crate::text::repeat_seq;
use crate::text::repeat_str;

verus! {

/// When to use colorized output.
#[derive(Clone, Copy, Debug, PartialEq, Eq, Structural)]
pub enum ColorChoice {
    Always,
    Auto,
    Never,
}

impl ColorChoice {
    /// The textual form of the choice.
    pub fn as_str(&self) -> (r: &'static str)
        ensures
            *self is Always ==> r@ == "always"@,
            *self is Auto ==> r@ == "auto"@,
            *self is Never ==> r@ == "never"@,
    {
        match self {
            ColorChoice::Always => "always",
            ColorChoice::Auto => "auto",
            ColorChoice::Never => "never",
        }
    }
}

impl Default for ColorChoice {
    /// The default choice: decide by the output device.
    fn default() -> (r: Self)
        ensures
            r is Auto,
    {
        ColorChoice::Auto
    }
}

/// The options of one directory view, each independently toggleable.
#[derive(Clone, Debug)]
pub struct ViewArgs {
    /// The directory to display.
    pub path: String,
    /// When to use colorized output.
    pub color: ColorChoice,
    /// Maximum depth to descend; unbounded if unset.
    pub level: Option<usize>,
    /// Display directories only.
    pub dirs_only: bool,
    /// Display the size of files.
    pub size: bool,
    /// Display file permissions.
    pub permissions: bool,
    /// Show hidden entries too.
    pub all: bool,
    /// Honor standard ignore files during the walk.
    pub gitignore: bool,
    /// Show version-control status for entries.
    pub git_status: bool,
    /// Display file-type icons.
    pub icons: bool,
}

impl Default for ViewArgs {
    /// Everything off, rooted at the empty path.
    fn default() -> (r: Self)
        ensures
            r.path@ == Seq::<char>::empty(),
            r.color is Auto,
            r.level is None,
            !r.dirs_only,
            !r.size,
            !r.permissions,
            !r.all,
            !r.gitignore,
            !r.git_status,
            !r.icons,
    {
        ViewArgs {
            path: String::new(),
            color: ColorChoice::Auto,
            level: None,
            dirs_only: false,
            size: false,
            permissions: false,
            all: false,
            gitignore: false,
            git_status: false,
            icons: false,
        }
    }
}

impl ViewArgs {
    /// The reference option bundle of path mode: everything toggled on
    /// together — color, status, size, icons, hidden entries and
    /// permissions — with no depth limit and no ignore-file filtering.
    pub fn path_mode(path: String) -> (r: Self)
        ensures
            r.path == path,
            r.color is Always,
            r.level is None,
            !r.dirs_only,
            r.size,
            r.permissions,
            r.all,
            !r.gitignore,
            r.git_status,
            r.icons,
    {
        ViewArgs {
            path,
            color: ColorChoice::Always,
            level: None,
            dirs_only: false,
            size: true,
            permissions: true,
            all: true,
            gitignore: false,
            git_status: true,
            icons: true,
        }
    }
}

/// One filesystem walk result, as plain values.
#[derive(Clone, Debug)]
pub struct FileEntry {
    /// The path as walked, used for the icon lookup.
    pub path: String,
    /// The file name, the visible text of the line.
    pub name: String,
    /// Depth below the walk root; the root itself is depth `0` and is
    /// never emitted.
    pub depth: usize,
    /// Whether the entry is a directory.
    pub is_dir: bool,
    /// Byte length, when known.
    pub size: Option<u64>,
    /// Raw permission bits, when known.
    pub mode: Option<u32>,
    /// Best-effort canonicalized path, used only for the status lookup.
    pub canonical: Option<String>,
    /// The name's resolved display style, from the environment's
    /// color-name mappings; absent means unstyled.
    pub name_style: Option<TextStyle>,
}

/// Whether decorating under these options needs file metadata at all:
/// stat an entry only if size or permission display is requested.
pub fn needs_metadata(args: &ViewArgs) -> (r: bool)
    ensures
        r == (args.size || args.permissions),
{
    args.size || args.permissions
}

// ------------------------------------------------------------------
// Permission and size formatting.
// ------------------------------------------------------------------

/// The `rwxrwxrwx` rendering of the nine low permission bits.
pub open spec fn rwx_seq(m: u32) -> Seq<char> {
    seq![
        if (m >> 8u32) & 1u32 == 1u32 {
            'r'
        } else {
            '-'
        },
        if (m >> 7u32) & 1u32 == 1u32 {
            'w'
        } else {
            '-'
        },
        if (m >> 6u32) & 1u32 == 1u32 {
            'x'
        } else {
            '-'
        },
        if (m >> 5u32) & 1u32 == 1u32 {
            'r'
        } else {
            '-'
        },
        if (m >> 4u32) & 1u32 == 1u32 {
            'w'
        } else {
            '-'
        },
        if (m >> 3u32) & 1u32 == 1u32 {
            'x'
        } else {
            '-'
        },
        if (m >> 2u32) & 1u32 == 1u32 {
            'r'
        } else {
            '-'
        },
        if (m >> 1u32) & 1u32 == 1u32 {
            'w'
        } else {
            '-'
        },
        if m & 1u32 == 1u32 {
            'x'
        } else {
            '-'
        },
    ]
}

/// Renders the nine low permission bits as `rwxrwxrwx`, with `-` for each
/// clear bit.
pub fn format_permissions(mode: u32) -> (r: String)
    ensures
        r@ == rwx_seq(mode),
{
    proof {
        reveal_strlit("r");
        reveal_strlit("w");
        reveal_strlit("x");
        reveal_strlit("-");
    }
    let mut out = String::new();
    out.append(if (mode >> 8u32) & 1 == 1 { "r" } else { "-" });
    out.append(if (mode >> 7u32) & 1 == 1 { "w" } else { "-" });
    out.append(if (mode >> 6u32) & 1 == 1 { "x" } else { "-" });
    out.append(if (mode >> 5u32) & 1 == 1 { "r" } else { "-" });
    out.append(if (mode >> 4u32) & 1 == 1 { "w" } else { "-" });
    out.append(if (mode >> 3u32) & 1 == 1 { "x" } else { "-" });
    out.append(if (mode >> 2u32) & 1 == 1 { "r" } else { "-" });
    out.append(if (mode >> 1u32) & 1 == 1 { "w" } else { "-" });
    out.append(if mode & 1 == 1 { "x" } else { "-" });
    proof {
        assert(out@ =~= rwx_seq(mode));
    }
    out
}

/// One fractional decimal digit of `n / base`: the digit after the point.
pub open spec fn frac_digit(n: nat, base: nat) -> Seq<char>
    recommends
        base > 0,
{
    dec_seq((n % base) * 10 / base)
}

/// A human-readable byte size: plain bytes below one KiB, otherwise one
/// fractional digit and a binary unit.
pub open spec fn spec_size(n: nat) -> Seq<char> {
    if n < 1024 {
        dec_seq(n) + " B"@
    } else if n < 1048576 {
        dec_seq(n / 1024) + seq!['.'] + frac_digit(n, 1024) + " KiB"@
    } else if n < 1073741824 {
        dec_seq(n / 1048576) + seq!['.'] + frac_digit(n, 1048576) + " MiB"@
    } else if n < 1099511627776 {
        dec_seq(n / 1073741824) + seq!['.'] + frac_digit(n, 1073741824) + " GiB"@
    } else if n < 1125899906842624 {
        dec_seq(n / 1099511627776) + seq!['.'] + frac_digit(n, 1099511627776) + " TiB"@
    } else if n < 1152921504606846976 {
        dec_seq(n / 1125899906842624) + seq!['.'] + frac_digit(n, 1125899906842624) + " PiB"@
    } else {
        dec_seq(n / 1152921504606846976) + seq!['.'] + frac_digit(n, 1152921504606846976)
            + " EiB"@
    }
}

fn size_with_unit(n: u64, base: u64, unit: &'static str) -> (r: String)
    requires
        1024 <= base,
        base <= 1152921504606846976,
    ensures
        r@ == dec_seq((n as nat) / (base as nat)) + seq!['.'] + frac_digit(n as nat, base as nat)
            + unit@,
{
    proof {
        reveal_strlit(".");
    }
    let mut out = fmt_u64(n / base);
    out.append(".");
    out.append(fmt_u64((n % base) * 10 / base).as_str());
    out.append(unit);
    proof {
        assert(out@ =~= dec_seq((n as nat) / (base as nat)) + seq!['.'] + frac_digit(
            n as nat,
            base as nat,
        ) + unit@);
    }
    out
}

/// Renders a byte count for display: plain bytes below one KiB, otherwise
/// one fractional digit and a binary unit.
pub fn format_size(n: u64) -> (r: String)
    ensures
        r@ == spec_size(n as nat),
{
    if n < 1024 {
        let mut out = fmt_u64(n);
        out.append(" B");
        out
    } else if n < 1048576 {
        size_with_unit(n, 1024, " KiB")
    } else if n < 1073741824 {
        size_with_unit(n, 1048576, " MiB")
    } else if n < 1099511627776 {
        size_with_unit(n, 1073741824, " GiB")
    } else if n < 1125899906842624 {
        size_with_unit(n, 1099511627776, " TiB")
    } else if n < 1152921504606846976 {
        size_with_unit(n, 1125899906842624, " PiB")
    } else {
        size_with_unit(n, 1152921504606846976, " EiB")
    }
}

// ------------------------------------------------------------------
// One decorated line.
// ------------------------------------------------------------------

/// The dimmed style used for the permission and size columns.
pub open spec fn dim_style() -> TextStyle {
    TextStyle { fg: None, bold: false, dimmed: true, italic: false, underline: false }
}

/// The style of a status glyph: the status color, nothing else.
pub open spec fn status_style(st: FileStatus) -> TextStyle {
    TextStyle {
        fg: Some(spec_status_color(st)),
        bold: false,
        dimmed: false,
        italic: false,
        underline: false,
    }
}

/// The index contents seen through an optional reference.
pub open spec fn index_entries(ix: Option<&StatusIndex>) -> Option<Seq<(String, FileStatus)>> {
    match ix {
        Some(i) => Some(i.entries@),
        None => None,
    }
}

/// The model of an optional icon lookup result.
pub open spec fn icon_model(ic: Option<(char, String)>) -> Option<(char, Seq<char>)> {
    match ic {
        Some(p) => Some((p.0, p.1@)),
        None => None,
    }
}

/// The status column: empty when status display is off or no repository
/// was recognized; otherwise the painted glyph of the entry's status, or
/// two blank spaces when the entry has no notable status, no canonical
/// path, or lies outside the repository.
pub open spec fn spec_status_seg(
    idx: Option<Seq<(String, FileStatus)>>,
    root: Seq<char>,
    want: bool,
    canonical: Option<String>,
) -> Seq<char> {
    if !want {
        Seq::empty()
    } else {
        match idx {
            None => Seq::empty(),
            Some(entries) => match canonical {
                None => seq![' ', ' '],
                Some(cp) => match spec_status_of(entries, root, cp@) {
                    Some(st) => painted(status_style(st), seq![spec_glyph(st), ' ']),
                    None => seq![' ', ' '],
                },
            },
        }
    }
}

/// The permission column's text: type character, nine permission
/// characters and a space, with all dashes when the bits are unknown;
/// empty when permission display is off.
pub open spec fn spec_perm_text(want: bool, is_dir: bool, mode: Option<u32>) -> Seq<char> {
    if !want {
        Seq::empty()
    } else {
        match mode {
            Some(m) => seq![
                if is_dir {
                    'd'
                } else {
                    '-'
                },
            ] + rwx_seq(m) + seq![' '],
            None => seq!['-', '-', '-', '-', '-', '-', '-', '-', '-', '-', ' '],
        }
    }
}

/// The size suffix's text: the formatted size in parentheses for a file
/// with a known size when size display is on, empty otherwise.
pub open spec fn spec_size_text(want: bool, is_dir: bool, size: Option<u64>) -> Seq<char> {
    if want && !is_dir {
        match size {
            Some(n) => seq![' ', '('] + spec_size(n as nat) + seq![')'],
            None => Seq::empty(),
        }
    } else {
        Seq::empty()
    }
}

/// The icon column: the glyph and a space, painted with the color the
/// icon table suggested; empty when no icon was looked up.
pub open spec fn spec_icon_seg(ic: Option<(char, Seq<char>)>) -> Seq<char> {
    match ic {
        Some(p) => painted(
            TextStyle {
                fg: Some(spec_lookup_color(p.1)),
                bold: false,
                dimmed: false,
                italic: false,
                underline: false,
            },
            seq![p.0, ' '],
        ),
        None => Seq::empty(),
    }
}

/// Four spaces per level below the first.
pub open spec fn spec_indent(depth: nat) -> Seq<char> {
    if depth == 0 {
        Seq::empty()
    } else {
        repeat_seq(seq![' ', ' ', ' ', ' '], (depth - 1) as nat)
    }
}

/// The name's style, unstyled when none was resolved.
pub open spec fn spec_name_style(st: Option<TextStyle>) -> TextStyle {
    match st {
        Some(s) => s,
        None => TextStyle { fg: None, bold: false, dimmed: false, italic: false, underline: false },
    }
}

/// One fully decorated line: status column, dimmed permission column,
/// indentation, the `└── ` connector, icon column, styled name, dimmed
/// size suffix.
pub open spec fn spec_line(
    args: ViewArgs,
    e: FileEntry,
    idx: Option<Seq<(String, FileStatus)>>,
    root: Seq<char>,
    ic: Option<(char, Seq<char>)>,
) -> Seq<char> {
    spec_status_seg(idx, root, args.git_status, e.canonical) + painted(
        dim_style(),
        spec_perm_text(args.permissions, e.is_dir, e.mode),
    ) + spec_indent(e.depth as nat) + seq!['└', '─', '─', ' '] + spec_icon_seg(ic) + painted(
        spec_name_style(e.name_style),
        e.name@,
    ) + painted(dim_style(), spec_size_text(args.size, e.is_dir, e.size))
}

/// Builds the one display line of an already filtered entry, from the
/// entry's plain values, the status index, and the icon lookup result the
/// caller obtained (absent when icon display is off).
pub fn decorate_entry(
    args: &ViewArgs,
    e: &FileEntry,
    index: Option<&StatusIndex>,
    root: &str,
    icon: Option<(char, String)>,
) -> (line: String)
    ensures
        line@ == spec_line(*args, *e, index_entries(index), root@, icon_model(icon)),
{
    proof {
        reveal_strlit(" ");
        reveal_strlit("  ");
        reveal_strlit("└── ");
        reveal_strlit("---------- ");
        reveal_strlit("d");
        reveal_strlit("-");
        reveal_strlit(" (");
        reveal_strlit(")");
        reveal_strlit("    ");
        assert("  "@ =~= seq![' ', ' ']);
        assert("└── "@ =~= seq!['└', '─', '─', ' ']);
        assert("---------- "@ =~= seq!['-', '-', '-', '-', '-', '-', '-', '-', '-', '-', ' ']);
        assert("    "@ =~= seq![' ', ' ', ' ', ' ']);
    }
    let mut line = String::new();
    if args.git_status {
        match index {
            Some(ix) => {
                let looked: Option<FileStatus> = match &e.canonical {
                    Some(cp) => status_of(ix, root, cp.as_str()),
                    None => None,
                };
                match looked {
                    Some(st) => {
                        let sty = TextStyle {
                            fg: Some(st.color()),
                            bold: false,
                            dimmed: false,
                            italic: false,
                            underline: false,
                        };
                        let mut g = String::new();
                        push_char(&mut g, st.glyph());
                        g.append(" ");
                        proof {
                            assert(g@ =~= seq![spec_glyph(st), ' ']);
                        }
                        line.append(paint(&sty, g.as_str()).as_str());
                    },
                    None => {
                        line.append("  ");
                    },
                }
            },
            None => {},
        }
    }
    proof {
        assert(line@ =~= spec_status_seg(
            index_entries(index),
            root@,
            args.git_status,
            e.canonical,
        ));
    }
    let dim = TextStyle { fg: None, bold: false, dimmed: true, italic: false, underline: false };
    let ptext: String = if args.permissions {
        match e.mode {
            Some(m) => {
                let mut t = String::from_str(
                    if e.is_dir {
                        "d"
                    } else {
                        "-"
                    },
                );
                t.append(format_permissions(m).as_str());
                t.append(" ");
                t
            },
            None => String::from_str("---------- "),
        }
    } else {
        String::new()
    };
    proof {
        assert(ptext@ =~= spec_perm_text(args.permissions, e.is_dir, e.mode));
    }
    line.append(paint(&dim, ptext.as_str()).as_str());
    let depth_below: usize = if e.depth > 0 {
        e.depth - 1
    } else {
        0
    };
    line.append(repeat_str("    ", depth_below).as_str());
    proof {
        assert(repeat_seq("    "@, depth_below as nat) == spec_indent(e.depth as nat));
    }
    line.append("└── ");
    let ghost seg4 = line@;
    match &icon {
        Some(p) => {
            let col = lookup_ansi_color_style(p.1.as_str());
            let sty = TextStyle {
                fg: Some(col),
                bold: false,
                dimmed: false,
                italic: false,
                underline: false,
            };
            let mut t = String::new();
            push_char(&mut t, p.0);
            t.append(" ");
            proof {
                assert(t@ =~= seq![p.0, ' ']);
            }
            line.append(paint(&sty, t.as_str()).as_str());
        },
        None => {},
    }
    proof {
        assert(line@ =~= seg4 + spec_icon_seg(icon_model(icon)));
    }
    let nst = match &e.name_style {
        Some(s) => *s,
        None => TextStyle { fg: None, bold: false, dimmed: false, italic: false, underline: false },
    };
    line.append(paint(&nst, e.name.as_str()).as_str());
    let stext: String = if args.size && !e.is_dir {
        match e.size {
            Some(n) => {
                let mut t = String::from_str(" (");
                t.append(format_size(n).as_str());
                t.append(")");
                t
            },
            None => String::new(),
        }
    } else {
        String::new()
    };
    proof {
        assert(stext@ =~= spec_size_text(args.size, e.is_dir, e.size));
    }
    line.append(paint(&dim, stext.as_str()).as_str());
    proof {
        assert(line@ =~= spec_line(*args, *e, index_entries(index), root@, icon_model(icon)));
    }
    line
}

// ------------------------------------------------------------------
// Filtering and the whole walk.
// ------------------------------------------------------------------

/// Whether a name is hidden by convention: it starts with a dot.
pub open spec fn spec_hidden(name: Seq<char>) -> bool {
    name.len() > 0 && name[0] == '.'
}

/// Whether an entry survives the filters: the walk root itself (depth
/// `0`) never does; an entry deeper than the depth limit never does; with
/// directories-only filtering only directories do; without
/// hidden-entry inclusion no hidden name does.  Filters are applied
/// before any decoration work.
pub open spec fn spec_keeps(args: ViewArgs, e: FileEntry) -> bool {
    &&& e.depth > 0
    &&& (args.level matches Some(l) ==> e.depth <= l)
    &&& (args.dirs_only ==> e.is_dir)
    &&& (!args.all ==> !spec_hidden(e.name@))
}

/// The entries that survive the filters, in walk order.
pub open spec fn spec_kept(args: ViewArgs, s: Seq<FileEntry>) -> Seq<FileEntry>
    decreases s,
{
    if s.len() == 0 {
        Seq::empty()
    } else {
        (if spec_keeps(args, s[0]) {
            seq![s[0]]
        } else {
            Seq::empty()
        }) + spec_kept(args, s.drop_first())
    }
}

/// How many surviving entries are directories.
pub open spec fn spec_dir_count(args: ViewArgs, s: Seq<FileEntry>) -> nat
    decreases s,
{
    if s.len() == 0 {
        0
    } else {
        (if spec_keeps(args, s[0]) && s[0].is_dir {
            1nat
        } else {
            0nat
        }) + spec_dir_count(args, s.drop_first())
    }
}

/// How many surviving entries are files.
pub open spec fn spec_file_count(args: ViewArgs, s: Seq<FileEntry>) -> nat
    decreases s,
{
    if s.len() == 0 {
        0
    } else {
        (if spec_keeps(args, s[0]) && !s[0].is_dir {
            1nat
        } else {
            0nat
        }) + spec_file_count(args, s.drop_first())
    }
}

proof fn lemma_kept_snoc(args: ViewArgs, s: Seq<FileEntry>, e: FileEntry)
    ensures
        spec_kept(args, s.push(e)) == spec_kept(args, s) + (if spec_keeps(args, e) {
            seq![e]
        } else {
            Seq::<FileEntry>::empty()
        }),
        spec_dir_count(args, s.push(e)) == spec_dir_count(args, s) + (
        if spec_keeps(args, e) && e.is_dir {
            1nat
        } else {
            0nat
        }),
        spec_file_count(args, s.push(e)) == spec_file_count(args, s) + (
        if spec_keeps(args, e) && !e.is_dir {
            1nat
        } else {
            0nat
        }),
    decreases s,
{
    let tail = if spec_keeps(args, e) {
        seq![e]
    } else {
        Seq::<FileEntry>::empty()
    };
    if s.len() == 0 {
        assert(spec_kept(args, Seq::<FileEntry>::empty()) == Seq::<FileEntry>::empty());
        assert(spec_dir_count(args, Seq::<FileEntry>::empty()) == 0);
        assert(spec_file_count(args, Seq::<FileEntry>::empty()) == 0);
        assert(s.push(e)[0] == e);
        assert(s.push(e).drop_first() =~= Seq::<FileEntry>::empty());
        assert(spec_kept(args, s.push(e)) =~= tail);
        assert(spec_kept(args, s) + tail =~= tail);
    } else {
        assert(s.push(e).drop_first() =~= s.drop_first().push(e));
        lemma_kept_snoc(args, s.drop_first(), e);
        assert(s.push(e)[0] == s[0]);
        assert(spec_kept(args, s.push(e)) =~= spec_kept(args, s) + tail);
    }
}

/// Every survivor passes the filters, and the counts add up.
pub proof fn lemma_kept_sound(args: ViewArgs, s: Seq<FileEntry>)
    ensures
        forall|j: int|
            0 <= j < spec_kept(args, s).len() ==> spec_keeps(args, #[trigger] spec_kept(args, s)[j]),
        spec_kept(args, s).len() == spec_dir_count(args, s) + spec_file_count(args, s),
        spec_kept(args, s).len() <= s.len(),
    decreases s,
{
    if s.len() > 0 {
        lemma_kept_sound(args, s.drop_first());
    }
}

/// Whether `line` is the exact decoration of `e` for some icon lookup
/// result — present exactly when icon display is on, and otherwise
/// unconstrained, because the icon table may consult the filesystem.
pub open spec fn line_matches(
    args: ViewArgs,
    line: String,
    e: FileEntry,
    idx: Option<Seq<(String, FileStatus)>>,
    root: Seq<char>,
) -> bool {
    exists|ic: Option<(char, Seq<char>)>|
        line@ == spec_line(args, e, idx, root, ic) && (args.icons <==> ic is Some)
}

/// The decorated outcome of one walk: one line per surviving entry, in
/// walk order, and the directory and file totals.
pub struct DecoratedOutput {
    pub lines: Vec<String>,
    pub dirs: u64,
    pub files: u64,
}

/// Decorates a whole walk: filters each entry, resolves its icon when
/// icon display is on, builds its line, and counts directories and files.
///
/// Every line is the exact [`spec_line`] of its surviving entry; the icon
/// column is tied to whatever the icon lookup returned, so it is only
/// constrained to be absent when icon display is off.
pub fn decorate_entries(
    args: &ViewArgs,
    entries: &Vec<FileEntry>,
    index: Option<&StatusIndex>,
    root: &str,
) -> (r: DecoratedOutput)
    ensures
        r.lines@.len() == spec_kept(*args, entries@).len(),
        r.dirs == spec_dir_count(*args, entries@),
        r.files == spec_file_count(*args, entries@),
        forall|j: int|
            0 <= j < r.lines@.len() ==> line_matches(
                *args,
                #[trigger] r.lines@[j],
                spec_kept(*args, entries@)[j],
                index_entries(index),
                root@,
            ),
{
    let mut lines: Vec<String> = Vec::new();
    let mut dirs: u64 = 0;
    let mut files: u64 = 0;
    let n = entries.len();
    let mut i: usize = 0;
    proof {
        assert(entries@.take(0) =~= Seq::<FileEntry>::empty());
    }
    while i < n
        invariant
            n == entries@.len(),
            i <= n,
            lines@.len() == spec_kept(*args, entries@.take(i as int)).len(),
            dirs == spec_dir_count(*args, entries@.take(i as int)),
            files == spec_file_count(*args, entries@.take(i as int)),
            dirs + files <= i,
            forall|j: int|
                0 <= j < lines@.len() ==> line_matches(
                    *args,
                    #[trigger] lines@[j],
                    spec_kept(*args, entries@.take(i as int))[j],
                    index_entries(index),
                    root@,
                ),
        decreases n - i,
    {
        proof {
            lemma_kept_sound(*args, entries@.take(i as int));
        }
        let e = &entries[i];
        let keep = e.depth > 0 && (match args.level {
            Some(l) => e.depth <= l,
            None => true,
        }) && (!args.dirs_only || e.is_dir) && (args.all || !{
            let name = &e.name;
            name.unicode_len() > 0 && name.get_char(0) == '.'
        });
        if keep {
            let icon: Option<(char, String)> = if args.icons {
                Some(file_icon(e.path.as_str()))
            } else {
                None
            };
            let ghost gic = icon_model(icon);
            let line = decorate_entry(args, e, index, root, icon);
            lines.push(line);
            if e.is_dir {
                dirs = dirs + 1;
            } else {
                files = files + 1;
            }
            proof {
                lemma_kept_snoc(*args, entries@.take(i as int), entries@[i as int]);
                assert(entries@.take(i as int).push(entries@[i as int]) =~= entries@.take(i + 1));
                let kept_new = spec_kept(*args, entries@.take(i + 1));
                assert(kept_new =~= spec_kept(*args, entries@.take(i as int)) + seq![
                    entries@[i as int],
                ]);
                assert(kept_new[lines@.len() - 1] == entries@[i as int]);
                assert(line_matches(
                    *args,
                    lines@[lines@.len() - 1],
                    kept_new[lines@.len() - 1],
                    index_entries(index),
                    root@,
                )) by {
                    assert((lines@[lines@.len() - 1])@ == spec_line(
                        *args,
                        kept_new[lines@.len() - 1],
                        index_entries(index),
                        root@,
                        gic,
                    ) && (args.icons <==> gic is Some));
                }
                assert forall|j: int| 0 <= j < lines@.len() implies line_matches(
                    *args,
                    #[trigger] lines@[j],
                    kept_new[j],
                    index_entries(index),
                    root@,
                ) by {
                    if j < lines@.len() - 1 {
                        assert(kept_new[j] == spec_kept(*args, entries@.take(i as int))[j]);
                        assert(lines@[j] == lines@.subrange(0, lines@.len() - 1)[j]);
                    }
                }
            }
        } else {
            proof {
                lemma_kept_snoc(*args, entries@.take(i as int), entries@[i as int]);
                assert(entries@.take(i as int).push(entries@[i as int]) =~= entries@.take(i + 1));
                assert(spec_kept(*args, entries@.take(i + 1)) =~= spec_kept(
                    *args,
                    entries@.take(i as int),
                ));
            }
        }
        i = i + 1;
    }
    proof {
        assert(entries@.take(n as int) =~= entries@);
    }
    DecoratedOutput { lines, dirs, files }
}

// ------------------------------------------------------------------
// The summary and the final line stream.
// ------------------------------------------------------------------

/// The summary's text: `<N> directories, <M> files`.
pub open spec fn summary_seq(dirs: nat, files: nat) -> Seq<char> {
    dec_seq(dirs) + " directories, "@ + dec_seq(files) + " files"@
}

/// Builds the summary line shown after the walk.
pub fn summary_line(dirs: u64, files: u64) -> (r: String)
    ensures
        r@ == summary_seq(dirs as nat, files as nat),
{
    let mut out = fmt_u64(dirs);
    out.append(" directories, ");
    out.append(fmt_u64(files).as_str());
    out.append(" files");
    out
}

/// Appends the closing records to a walk's lines: a blank line, then the
/// directory/file summary.
pub fn render_lines(d: DecoratedOutput) -> (r: Vec<String>)
    ensures
        r@.len() == d.lines@.len() + 2,
        forall|j: int| 0 <= j < d.lines@.len() ==> r@[j] == #[trigger] d.lines@[j],
        r@[r@.len() - 2]@ == Seq::<char>::empty(),
        r@[r@.len() - 1]@ == summary_seq(d.dirs as nat, d.files as nat),
{
    let mut out = d.lines;
    out.push(String::new());
    out.push(summary_line(d.dirs, d.files));
    out
}

/// The bold header naming the walked directory.
pub fn header_line(path: &str) -> (r: String)
    ensures
        r@ == painted(
            TextStyle { fg: None, bold: true, dimmed: false, italic: false, underline: false },
            path@,
        ),
{
    let sty = TextStyle { fg: None, bold: true, dimmed: false, italic: false, underline: false };
    paint(&sty, path)
}

/// The fatal-precondition check of path mode: a target that is not a
/// directory yields the one labeled error message, before any output; a
/// directory yields nothing.
pub fn path_mode_check(path: &str, is_dir: bool) -> (r: Result<(), String>)
    ensures
        r is Ok <==> is_dir,
        r matches Err(m) ==> m@ == seq!['\''] + path@ + "' is not a directory."@,
{
    if is_dir {
        Ok(())
    } else {
        proof {
            reveal_strlit("'");
            assert("'"@ =~= seq!['\'']);
        }
        let mut m = String::from_str("'");
        m.append(path);
        m.append("' is not a directory.");
        proof {
            assert(m@ =~= seq!['\''] + path@ + "' is not a directory."@);
        }
        Err(m)
    }
}

// ------------------------------------------------------------------
// Laws of the filters and of status degradation.
// ------------------------------------------------------------------

/// With icon display off, a decorated line is pinned down completely: it
/// is exactly the specified decoration with an empty icon column.
pub proof fn lemma_line_without_icons(
    args: ViewArgs,
    line: String,
    e: FileEntry,
    idx: Option<Seq<(String, FileStatus)>>,
    root: Seq<char>,
)
    requires
        line_matches(args, line, e, idx, root),
        !args.icons,
    ensures
        line@ == spec_line(args, e, idx, root, None),
{
    let ic = choose|ic: Option<(char, Seq<char>)>|
        line@ == spec_line(args, e, idx, root, ic) && (args.icons <==> ic is Some);
    assert(ic is None);
}

/// With a depth limit in force, no entry deeper than the limit is ever
/// emitted, whatever the other settings say.
pub proof fn lemma_depth_limit(args: ViewArgs, s: Seq<FileEntry>, l: usize)
    requires
        args.level == Some(l),
    ensures
        forall|j: int|
            0 <= j < spec_kept(args, s).len() ==> (#[trigger] spec_kept(args, s)[j]).depth <= l,
{
    lemma_kept_sound(args, s);
}

/// With directories-only filtering, exactly the surviving directories are
/// emitted: every emitted entry is a directory, their number is the
/// directory count, and the file count is zero.
pub proof fn lemma_dirs_only(args: ViewArgs, s: Seq<FileEntry>)
    requires
        args.dirs_only,
    ensures
        forall|j: int|
            0 <= j < spec_kept(args, s).len() ==> (#[trigger] spec_kept(args, s)[j]).is_dir,
        spec_kept(args, s).len() == spec_dir_count(args, s),
        spec_file_count(args, s) == 0,
    decreases s,
{
    lemma_kept_sound(args, s);
    if s.len() > 0 {
        lemma_dirs_only(args, s.drop_first());
    }
}

/// Outside a recognized repository there is no status index, and every
/// line comes out exactly as it would with status display off: status
/// decoration degrades to nothing rather than failing the walk.
pub proof fn lemma_no_repository_no_status(
    args: ViewArgs,
    off: ViewArgs,
    e: FileEntry,
    root: Seq<char>,
    ic: Option<(char, Seq<char>)>,
)
    requires
        args.git_status,
        off == (ViewArgs { git_status: false, ..args }),
    ensures
        spec_line(args, e, None, root, ic) == spec_line(off, e, None, root, ic),
{
}

} // verus!
