//! The file-type icon lookup, treated as a black box that returns a
//! symbol and a color token.

use vstd::prelude::*;

verus! {

/// Relies on `devicons::icon_for_file` with the default theme: the icon
/// table's glyph and suggested hex color for a path.  The lookup falls
/// back to consulting the filesystem for names it does not know, so
/// nothing is assumed of the result; callers decorate with whatever glyph
/// and color come back.
#[verifier::external_body]
pub fn file_icon(path: &str) -> (r: (char, String)) {
    let icon = devicons::icon_for_file(path, &None);
    (icon.icon, icon.color.to_string())
}

} // verus!
