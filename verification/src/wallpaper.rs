//! Decisions of the wallpaper rotator.
//!
//! The calling program walks the background directory, draws random
//! indices and runs the wallpaper setter; which files count as images and
//! which drawn index is accepted is decided here.

use vstd::prelude::*;

use crate::text;

verus! {

/// Whether a path names an image by its extension.
pub open spec fn is_image_path_spec(path: Seq<char>) -> bool {
    ||| ".jpg"@.is_suffix_of(path)
    ||| ".jpeg"@.is_suffix_of(path)
    ||| ".png"@.is_suffix_of(path)
    ||| ".webp"@.is_suffix_of(path)
    ||| ".bmp"@.is_suffix_of(path)
}

/// Whether a path names an image by its extension.
pub fn is_image_path(path: &str) -> (r: bool)
    ensures
        r == is_image_path_spec(path@),
{
    text::str_ends_with(path, ".jpg") || text::str_ends_with(path, ".jpeg")
        || text::str_ends_with(path, ".png") || text::str_ends_with(path, ".webp")
        || text::str_ends_with(path, ".bmp")
}

/// Whether a freshly drawn index may be used: any index other than the
/// previously shown one, so the same background never repeats back to
/// back.
pub fn accepts_index(index: usize, previous: Option<usize>) -> (r: bool)
    ensures
        r == (previous != Some(index)),
{
    match previous {
        Some(p) => p != index,
        None => true,
    }
}

} // verus!
