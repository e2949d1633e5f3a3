use vstd::prelude::*;

verus! {

/// Whether the render texture is rebuilt this frame: after a resize, a
/// change of the tracer's settings, or a press of the rebuild key.
pub fn texture_remake_needed(resized: bool, changed: bool, rebuild_pressed: bool) -> (res: bool)
    ensures
        res == (resized || changed || rebuild_pressed),
{
    resized || changed || rebuild_pressed
}

/// The frame counters after one update: the frame count goes up by one, and
/// so does the count of frames since the texture was last cleared, which
/// restarts from zero when the texture was rebuilt this frame.
pub fn advance_counters(frame: i32, last_clear: i32, remade: bool) -> (res: (i32, i32))
    requires
        frame < i32::MAX,
        remade || last_clear < i32::MAX,
    ensures
        res.0 == frame + 1,
        res.1 == if remade { 1 } else { last_clear + 1 },
{
    let cleared: i32 = if remade { 0 } else { last_clear };
    (frame + 1, cleared + 1)
}

} // verus!
