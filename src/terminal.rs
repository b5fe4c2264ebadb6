use vstd::prelude::*;

verus! {

/// Width in columns from which the full banner is shown.
pub const WIDE_TERMINAL: usize = 80;

/// Relies on term_size::dimensions: the width and height of the terminal,
/// or `None` when there is none.
#[verifier::external_body]
fn terminal_dimensions() -> (r: Option<(usize, usize)>) {
    term_size::dimensions()
}

/// Whether a terminal of these dimensions is wide enough for the full
/// banner: more than 80 columns. No terminal counts as narrow.
pub fn is_wide(dimensions: Option<(usize, usize)>) -> (r: bool)
    ensures
        r == (dimensions matches Some((w, _)) && w > WIDE_TERMINAL),
{
    match dimensions {
        Some((w, _)) => w > WIDE_TERMINAL,
        None => false,
    }
}

/// Whether the terminal of this process is wide enough for the full banner.
pub fn is_large() -> (r: bool) {
    is_wide(terminal_dimensions())
}

} // verus!
