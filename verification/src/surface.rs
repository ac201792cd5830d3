use vstd::prelude::*;

verus! {

/// The surface size after a window resize: the window's new size, or none
/// (keep the current configuration) when a side is zero, as for a
/// minimised window.
pub fn resized_surface(width: u32, height: u32) -> (size: Option<(u32, u32)>)
    ensures
        size == (if width > 0 && height > 0 {
            Some((width, height))
        } else {
            None
        }),
{
    if width > 0 && height > 0 {
        Some((width, height))
    } else {
        None
    }
}

} // verus!
