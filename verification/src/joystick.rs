//! Joystick axis calibration: averaging of millivolt samples, centre
//! calibration and the integer part of axis normalization.

use vstd::prelude::*;

verus! {

/// Which of the two virtual joysticks the physical stick drives.
#[derive(Debug, Clone, Copy, PartialEq, Eq, Structural)]
pub enum ActiveJoystick {
    /// Axes go to X, Y, Z.
    Joystick1,
    /// Axes go to Rx, Ry, Rz.
    Joystick2,
}

impl ActiveJoystick {
    /// The other virtual joystick.
    pub open spec fn toggled(self) -> ActiveJoystick {
        match self {
            ActiveJoystick::Joystick1 => ActiveJoystick::Joystick2,
            ActiveJoystick::Joystick2 => ActiveJoystick::Joystick1,
        }
    }

    /// Switches to the other virtual joystick and returns the new one.
    pub fn toggle(&mut self) -> (r: ActiveJoystick)
        ensures
            *final(self) == old(self).toggled(),
            r == *final(self),
    {
        *self = match *self {
            ActiveJoystick::Joystick1 => ActiveJoystick::Joystick2,
            ActiveJoystick::Joystick2 => ActiveJoystick::Joystick1,
        };
        *self
    }
}

/// Calibration parameters for one joystick axis, in millivolts.
#[derive(Debug, Clone, Copy, PartialEq, Eq, Structural)]
pub struct AxisConfig {
    pub min_mv: u16,
    pub center_mv: u16,
    pub max_mv: u16,
    pub deadzone_mv: u16,
    pub invert: bool,
}

/// The deflection of an axis reading as a fraction `(numerator,
/// denominator)` of the active span on its side of the centre: `None` inside
/// the dead zone; otherwise the distance past the dead-zone edge (signed,
/// positive above the centre) over the span from that edge to the limit
/// (at least 1).
pub open spec fn axis_deflection(c: AxisConfig, raw_mv: u16) -> Option<(i32, i32)> {
    let diff = raw_mv - c.center_mv;
    if -c.deadzone_mv <= diff <= c.deadzone_mv {
        None
    } else if diff > 0 {
        let span = c.max_mv - c.center_mv - c.deadzone_mv;
        Some(((diff - c.deadzone_mv) as i32, (if span >= 1 { span } else { 1 }) as i32))
    } else {
        let span = c.center_mv - c.min_mv - c.deadzone_mv;
        Some(((diff + c.deadzone_mv) as i32, (if span >= 1 { span } else { 1 }) as i32))
    }
}

impl AxisConfig {
    /// Splits a raw millivolt reading into the fraction that normalization
    /// turns into a value in `[-1.0, 1.0]` (after clamping and inversion):
    /// `None` means the reading lies in the dead zone and normalizes to 0.
    pub fn deflection(&self, raw_mv: u16) -> (r: Option<(i32, i32)>)
        ensures
            r == axis_deflection(*self, raw_mv),
    {
        let diff: i32 = raw_mv as i32 - self.center_mv as i32;
        let deadzone: i32 = self.deadzone_mv as i32;
        let magnitude: i32 = if diff < 0 { -diff } else { diff };
        if magnitude <= deadzone {
            return None;
        }
        if diff > 0 {
            let active_diff: i32 = diff - deadzone;
            let span: i32 = self.max_mv as i32 - self.center_mv as i32 - deadzone;
            let active_span: i32 = if span >= 1 { span } else { 1 };
            Some((active_diff, active_span))
        } else {
            let active_diff: i32 = diff + deadzone;
            let span: i32 = self.center_mv as i32 - self.min_mv as i32 - deadzone;
            let active_span: i32 = if span >= 1 { span } else { 1 };
            Some((active_diff, active_span))
        }
    }
}

impl Default for AxisConfig {
    /// Typical half-rail centre for 3.3 V with 11 dB attenuation (about
    /// 3100 mV full scale) and an 80 mV dead zone.
    fn default() -> (r: AxisConfig)
        ensures
            r == (AxisConfig { min_mv: 0, center_mv: 1550, max_mv: 3100, deadzone_mv: 80, invert: false }),
    {
        AxisConfig { min_mv: 0, center_mv: 1550, max_mv: 3100, deadzone_mv: 80, invert: false }
    }
}

/// Complete configuration for a 3-axis joystick.
#[derive(Debug, Clone, Copy, PartialEq, Eq, Structural)]
pub struct JoystickConfig {
    pub x: AxisConfig,
    pub y: AxisConfig,
    pub z: AxisConfig,
}

impl Default for JoystickConfig {
    /// The default configuration on every axis.
    fn default() -> (r: JoystickConfig)
        ensures
            r.x == (AxisConfig { min_mv: 0, center_mv: 1550, max_mv: 3100, deadzone_mv: 80, invert: false }),
            r.y == r.x,
            r.z == r.x,
    {
        JoystickConfig { x: AxisConfig::default(), y: AxisConfig::default(), z: AxisConfig::default() }
    }
}

/// The value of axis 0 (X), 1 (Y) or 2 (Z) of a sample.
pub open spec fn sample_axis(s: (u16, u16, u16), axis: int) -> int {
    if axis == 0 {
        s.0 as int
    } else if axis == 1 {
        s.1 as int
    } else {
        s.2 as int
    }
}

/// The sum of one axis over a sequence of samples.
pub open spec fn axis_sum(samples: Seq<(u16, u16, u16)>, axis: int) -> int
    decreases samples.len(),
{
    if samples.len() == 0 {
        0
    } else {
        axis_sum(samples.drop_last(), axis) + sample_axis(samples.last(), axis)
    }
}

/// The integer mean of one axis over a non-empty sequence of samples
/// (rounded down).
pub open spec fn axis_mean(samples: Seq<(u16, u16, u16)>, axis: int) -> int {
    axis_sum(samples, axis) / (samples.len() as int)
}

/// The number of read passes for a requested sample count: at least one.
pub fn sample_passes(samples: u32) -> (r: u32)
    ensures
        r == if samples == 0 { 1 } else { samples },
{
    if samples == 0 {
        1
    } else {
        samples
    }
}

/// Running sums of millivolt samples on the three axes, for oversampling
/// and centre calibration.
pub struct SampleAccumulator {
    sum_x: u32,
    sum_y: u32,
    sum_z: u32,
    count: u32,
    samples: Ghost<Seq<(u16, u16, u16)>>,
}

proof fn lemma_axis_sum_bound(samples: Seq<(u16, u16, u16)>, axis: int)
    ensures
        0 <= axis_sum(samples, axis) <= samples.len() * 65535,
    decreases samples.len(),
{
    if samples.len() > 0 {
        lemma_axis_sum_bound(samples.drop_last(), axis);
    }
}

proof fn lemma_mean_fits(samples: Seq<(u16, u16, u16)>, axis: int)
    requires
        samples.len() >= 1,
    ensures
        0 <= axis_mean(samples, axis) <= 65535,
{
    lemma_axis_sum_bound(samples, axis);
    let n = samples.len() as int;
    let s = axis_sum(samples, axis);
    assert(0 <= s / n <= 65535) by (nonlinear_arith)
        requires
            n >= 1,
            0 <= s <= n * 65535,
    ;
}

impl SampleAccumulator {
    #[verifier::type_invariant]
    spec fn sums_match(self) -> bool {
        &&& self.sum_x == axis_sum(self.samples@, 0)
        &&& self.sum_y == axis_sum(self.samples@, 1)
        &&& self.sum_z == axis_sum(self.samples@, 2)
        &&& self.count == self.samples@.len()
    }

    /// The samples added so far, in order.
    pub closed spec fn samples(self) -> Seq<(u16, u16, u16)> {
        self.samples@
    }

    /// An accumulator without samples.
    pub fn new() -> (a: SampleAccumulator)
        ensures
            a.samples() == Seq::<(u16, u16, u16)>::empty(),
    {
        SampleAccumulator { sum_x: 0, sum_y: 0, sum_z: 0, count: 0, samples: Ghost(Seq::empty()) }
    }

    /// The number of samples added so far.
    pub fn len(&self) -> (n: u32)
        ensures
            n == self.samples().len(),
    {
        proof {
            use_type_invariant(self);
        }
        self.count
    }

    /// Whether one more sample fits: no running sum and not the count would
    /// exceed `u32::MAX`.
    pub fn can_push(&self, x_mv: u16, y_mv: u16, z_mv: u16) -> (r: bool)
        ensures
            r == (axis_sum(self.samples(), 0) + x_mv <= u32::MAX && axis_sum(self.samples(), 1) + y_mv
                <= u32::MAX && axis_sum(self.samples(), 2) + z_mv <= u32::MAX && self.samples().len() + 1
                <= u32::MAX),
    {
        proof {
            use_type_invariant(self);
        }
        x_mv as u32 <= u32::MAX - self.sum_x && y_mv as u32 <= u32::MAX - self.sum_y && z_mv as u32
            <= u32::MAX - self.sum_z && self.count < u32::MAX
    }

    /// Adds one `(x, y, z)` sample.
    pub fn push(&mut self, x_mv: u16, y_mv: u16, z_mv: u16)
        requires
            axis_sum(old(self).samples(), 0) + x_mv <= u32::MAX,
            axis_sum(old(self).samples(), 1) + y_mv <= u32::MAX,
            axis_sum(old(self).samples(), 2) + z_mv <= u32::MAX,
            old(self).samples().len() + 1 <= u32::MAX,
        ensures
            final(self).samples() == old(self).samples().push((x_mv, y_mv, z_mv)),
    {
        proof {
            use_type_invariant(&*self);
        }
        let ghost next = self.samples@.push((x_mv, y_mv, z_mv));
        assert(next.drop_last() =~= self.samples@);
        *self = SampleAccumulator {
            sum_x: self.sum_x + x_mv as u32,
            sum_y: self.sum_y + y_mv as u32,
            sum_z: self.sum_z + z_mv as u32,
            count: self.count + 1,
            samples: Ghost(next),
        };
    }

    /// The mean of each axis over the samples, rounded down.
    pub fn average(&self) -> (r: (u16, u16, u16))
        requires
            self.samples().len() >= 1,
        ensures
            r.0 == axis_mean(self.samples(), 0),
            r.1 == axis_mean(self.samples(), 1),
            r.2 == axis_mean(self.samples(), 2),
    {
        proof {
            use_type_invariant(self);
            lemma_mean_fits(self.samples@, 0);
            lemma_mean_fits(self.samples@, 1);
            lemma_mean_fits(self.samples@, 2);
        }
        ((self.sum_x / self.count) as u16, (self.sum_y / self.count) as u16, (self.sum_z / self.count) as u16)
    }
}

impl JoystickConfig {
    /// Sets the centre of each axis to the mean of samples taken at rest;
    /// everything else is kept.
    pub fn calibrate_center(&mut self, samples: &SampleAccumulator)
        requires
            samples.samples().len() >= 1,
        ensures
            final(self).x == (AxisConfig { center_mv: axis_mean(samples.samples(), 0) as u16, ..old(self).x }),
            final(self).y == (AxisConfig { center_mv: axis_mean(samples.samples(), 1) as u16, ..old(self).y }),
            final(self).z == (AxisConfig { center_mv: axis_mean(samples.samples(), 2) as u16, ..old(self).z }),
    {
        let (x, y, z) = samples.average();
        self.x.center_mv = x;
        self.y.center_mv = y;
        self.z.center_mv = z;
    }
}

proof fn lemma_axis_sum_constant(samples: Seq<(u16, u16, u16)>, v: (u16, u16, u16), axis: int)
    requires
        forall|i: int| 0 <= i < samples.len() ==> #[trigger] samples[i] == v,
    ensures
        axis_sum(samples, axis) == samples.len() * sample_axis(v, axis),
    decreases samples.len(),
{
    if samples.len() > 0 {
        let rest = samples.drop_last();
        assert forall|i: int| 0 <= i < rest.len() implies #[trigger] rest[i] == v by {
            assert(rest[i] == samples[i]);
        }
        lemma_axis_sum_constant(rest, v, axis);
        assert(samples.len() * sample_axis(v, axis) == rest.len() * sample_axis(v, axis) + sample_axis(v, axis))
            by (nonlinear_arith)
            requires
                samples.len() == rest.len() + 1,
        ;
    }
}

/// Averaging samples that all read the same value gives that value: a
/// stick at rest calibrates to where it rests.
pub proof fn lemma_mean_of_equal_samples(samples: Seq<(u16, u16, u16)>, v: (u16, u16, u16), axis: int)
    requires
        samples.len() >= 1,
        forall|i: int| 0 <= i < samples.len() ==> #[trigger] samples[i] == v,
    ensures
        axis_mean(samples, axis) == sample_axis(v, axis),
{
    lemma_axis_sum_constant(samples, v, axis);
    vstd::arithmetic::div_mod::lemma_div_multiples_vanish(sample_axis(v, axis), samples.len() as int);
}

/// The mean of the samples lies between the smallest and the largest
/// sample on that axis.
pub proof fn lemma_mean_within_samples(samples: Seq<(u16, u16, u16)>, axis: int, lo: int, hi: int)
    requires
        samples.len() >= 1,
        forall|i: int| 0 <= i < samples.len() ==> lo <= #[trigger] sample_axis(samples[i], axis) <= hi,
    ensures
        lo <= axis_mean(samples, axis) <= hi,
{
    lemma_axis_sum_between(samples, axis, lo, hi);
    let n = samples.len() as int;
    let s = axis_sum(samples, axis);
    assert(lo <= s / n <= hi) by (nonlinear_arith)
        requires
            n >= 1,
            n * lo <= s <= n * hi,
    ;
}

proof fn lemma_axis_sum_between(samples: Seq<(u16, u16, u16)>, axis: int, lo: int, hi: int)
    requires
        forall|i: int| 0 <= i < samples.len() ==> lo <= #[trigger] sample_axis(samples[i], axis) <= hi,
    ensures
        samples.len() * lo <= axis_sum(samples, axis) <= samples.len() * hi,
    decreases samples.len(),
{
    if samples.len() > 0 {
        let rest = samples.drop_last();
        assert forall|i: int| 0 <= i < rest.len() implies lo <= #[trigger] sample_axis(rest[i], axis) <= hi by {
            assert(rest[i] == samples[i]);
        }
        lemma_axis_sum_between(rest, axis, lo, hi);
        assert(lo <= sample_axis(samples[samples.len() - 1], axis) <= hi);
        assert(samples.len() * lo == rest.len() * lo + lo && samples.len() * hi == rest.len() * hi + hi)
            by (nonlinear_arith)
            requires
                samples.len() == rest.len() + 1,
        ;
    }
}

/// A reading at the upper limit deflects fully upward and one at the lower
/// limit fully downward, whenever the limit lies past the dead zone.
pub proof fn lemma_full_deflection_at_limits(c: AxisConfig)
    ensures
        c.max_mv - c.center_mv > c.deadzone_mv ==> axis_deflection(c, c.max_mv) == Some(
            ((c.max_mv - c.center_mv - c.deadzone_mv) as i32, (c.max_mv - c.center_mv - c.deadzone_mv) as i32),
        ),
        c.center_mv - c.min_mv > c.deadzone_mv ==> axis_deflection(c, c.min_mv) == Some(
            ((c.min_mv - c.center_mv + c.deadzone_mv) as i32, (c.center_mv - c.min_mv - c.deadzone_mv) as i32),
        ),
{
}

/// A reading at the centre lies in the dead zone.
pub proof fn lemma_center_in_deadzone(c: AxisConfig)
    ensures
        axis_deflection(c, c.center_mv) is None,
{
}

} // verus!
