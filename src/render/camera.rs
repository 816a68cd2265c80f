use vstd::prelude::*;

verus! {

/// Degrees of turn per unit of mouse movement, in thousandths of a degree.
pub const MOUSE_SENSITIVITY_MILLI: i64 = 687;

/// The largest pitch magnitude, in thousandths of a degree.
pub const PITCH_LIMIT_MILLI: i64 = 89900;

/// Where the camera looks: yaw and pitch in thousandths of a degree. Yaw
/// accumulates every horizontal movement; pitch stays within the limits so
/// that the view never reaches a pole.
pub struct Look {
    yaw: i64,
    pitch: i64,
}

pub open spec fn clamp(v: int, lo: int, hi: int) -> int {
    if v < lo {
        lo
    } else if v > hi {
        hi
    } else {
        v
    }
}

/// The sum of the horizontal mouse movements.
pub open spec fn sum_dx(deltas: Seq<(i32, i32)>) -> int
    decreases deltas.len(),
{
    if deltas.len() == 0 {
        0
    } else {
        sum_dx(deltas.drop_last()) + deltas.last().0
    }
}

/// The sum of the vertical mouse movements.
pub open spec fn sum_dy(deltas: Seq<(i32, i32)>) -> int
    decreases deltas.len(),
{
    if deltas.len() == 0 {
        0
    } else {
        sum_dy(deltas.drop_last()) + deltas.last().1
    }
}

/// Yaw and pitch after one update with the mouse movements `deltas` that
/// arrived since the last one: unchanged when there are none; otherwise the
/// summed movement, scaled by the sensitivity, is added to yaw and pitch,
/// and the pitch is clamped to the limits.
pub open spec fn spec_look_update(look: (int, int), deltas: Seq<(i32, i32)>) -> (int, int) {
    if deltas.len() == 0 {
        look
    } else {
        (
            look.0 + MOUSE_SENSITIVITY_MILLI * sum_dx(deltas),
            clamp(
                look.1 + MOUSE_SENSITIVITY_MILLI * sum_dy(deltas),
                -PITCH_LIMIT_MILLI,
                PITCH_LIMIT_MILLI as int,
            ),
        )
    }
}

/// Yaw and pitch after a series of updates, one batch of movements each.
pub open spec fn spec_look_updates(look: (int, int), batches: Seq<Seq<(i32, i32)>>) -> (int, int)
    decreases batches.len(),
{
    if batches.len() == 0 {
        look
    } else {
        spec_look_update(spec_look_updates(look, batches.drop_last()), batches.last())
    }
}

impl View for Look {
    type V = (int, int);

    closed spec fn view(&self) -> (int, int) {
        (self.yaw as int, self.pitch as int)
    }
}

impl Look {
    pub open spec fn wf(&self) -> bool {
        -PITCH_LIMIT_MILLI <= self@.1 <= PITCH_LIMIT_MILLI
    }

    /// Looking level along yaw zero.
    pub fn new() -> (r: Look)
        ensures
            r.wf(),
            r@ == (0int, 0int),
    {
        Look { yaw: 0, pitch: 0 }
    }

    /// Yaw, in thousandths of a degree.
    pub fn yaw(&self) -> (r: i64)
        ensures
            r == self@.0,
    {
        self.yaw
    }

    /// Pitch, in thousandths of a degree.
    pub fn pitch(&self) -> (r: i64)
        ensures
            r == self@.1,
    {
        self.pitch
    }

    /// Applies the mouse movements that arrived since the last update and
    /// says whether the view direction must be recomputed, which is so
    /// exactly when there was at least one movement. The new yaw must fit
    /// in `i64`.
    pub fn update(&mut self, deltas: &[(i32, i32)]) -> (recompute: bool)
        requires
            old(self).wf(),
            i64::MIN <= old(self)@.0 + MOUSE_SENSITIVITY_MILLI * sum_dx(deltas@) <= i64::MAX,
        ensures
            final(self).wf(),
            final(self)@ == spec_look_update(old(self)@, deltas@),
            recompute == (deltas@.len() > 0),
    {
        if deltas.len() == 0 {
            return false;
        }
        let mut sx: i128 = 0;
        let mut sy: i128 = 0;
        let mut i: usize = 0;
        while i < deltas.len()
            invariant
                i <= deltas@.len(),
                sx == sum_dx(deltas@.take(i as int)),
                sy == sum_dy(deltas@.take(i as int)),
                -0x8000_0000 * i <= sx <= 0x8000_0000 * i,
                -0x8000_0000 * i <= sy <= 0x8000_0000 * i,
            decreases deltas@.len() - i,
        {
            let (dx, dy) = deltas[i];
            proof {
                assert(deltas@.take(i + 1).drop_last() =~= deltas@.take(i as int));
            }
            sx = sx + dx as i128;
            sy = sy + dy as i128;
            i += 1;
        }
        assert(deltas@.take(deltas@.len() as int) =~= deltas@);
        assert(-0x8000_0000_0000_0000_0000_0000 <= sx <= 0x8000_0000_0000_0000_0000_0000);
        assert(-0x8000_0000_0000_0000_0000_0000 <= sy <= 0x8000_0000_0000_0000_0000_0000);
        assert(MOUSE_SENSITIVITY_MILLI * sx == 687 * sx);
        assert(MOUSE_SENSITIVITY_MILLI * sy == 687 * sy);
        let yaw = self.yaw as i128 + MOUSE_SENSITIVITY_MILLI as i128 * sx;
        let tilted = self.pitch as i128 + MOUSE_SENSITIVITY_MILLI as i128 * sy;
        let limit = PITCH_LIMIT_MILLI as i128;
        let pitch = if tilted < -limit {
            -limit
        } else if tilted > limit {
            limit
        } else {
            tilted
        };
        self.yaw = yaw as i64;
        self.pitch = pitch as i64;
        true
    }
}

/// However large the mouse movements, the pitch stays within the limits
/// after every series of updates.
pub proof fn lemma_pitch_stays_clamped(start: Look, batches: Seq<Seq<(i32, i32)>>)
    requires
        start.wf(),
    ensures
        -PITCH_LIMIT_MILLI <= spec_look_updates(start@, batches).1 <= PITCH_LIMIT_MILLI,
    decreases batches.len(),
{
    if batches.len() > 0 {
        lemma_pitch_stays_clamped(start, batches.drop_last());
    }
}

} // verus!
