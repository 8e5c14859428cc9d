//! Instants as signed nanosecond counts from the Unix epoch.

use vstd::prelude::*;

verus! {

/// Nanoseconds in one second.
pub const NANOS_PER_SEC: i128 = 1_000_000_000;

/// Nanoseconds in one day of 86 400 seconds.
pub const NANOS_PER_DAY: i128 = 86_400_000_000_000;

/// Number of 100 ns ticks between 1601-01-01 and the Unix epoch.
pub const FILETIME_UNIX_EPOCH_TICKS: u64 = 116_444_736_000_000_000;

/// An instant, counted in nanoseconds from 1970-01-01T00:00:00Z (negative before it).
#[derive(Clone, Copy, Debug, PartialEq, Eq, Structural)]
pub struct Timestamp {
    pub nanos: i128,
}

impl View for Timestamp {
    type V = int;

    open spec fn view(&self) -> int {
        self.nanos as int
    }
}

/// The value of a 64-bit quantity stored as a high and a low 32-bit half.
pub open spec fn halves_value(high: u32, low: u32) -> int {
    high as int * 0x1_0000_0000 + low as int
}

/// What a raw tick count (100 ns units since 1601) denotes: nothing for zero or for
/// any value before the Unix epoch, else the instant it names.
pub open spec fn ticks_instant(ticks: int) -> Option<Timestamp> {
    if ticks < FILETIME_UNIX_EPOCH_TICKS as int {
        None
    } else {
        Some(Timestamp { nanos: ((ticks - FILETIME_UNIX_EPOCH_TICKS as int) * 100) as i128 })
    }
}

/// Relies on `SystemTime::now` and `SystemTime::duration_since(UNIX_EPOCH)`: the clock's
/// reading as whole seconds and sub-second nanoseconds from the Unix epoch, `Ok` when the
/// reading is at or after the epoch and `Err` (the distance back to it) when before.
#[verifier::external_body]
fn read_system_clock() -> (r: Result<(u64, u32), (u64, u32)>)
    ensures
        match r {
            Ok(d) => d.1 < 1_000_000_000,
            Err(d) => d.1 < 1_000_000_000,
        },
{
    match std::time::SystemTime::now().duration_since(std::time::UNIX_EPOCH) {
        Ok(d) => Ok((d.as_secs(), d.subsec_nanos())),
        Err(e) => Err((e.duration().as_secs(), e.duration().subsec_nanos())),
    }
}

impl Timestamp {
    /// The instant `secs` whole seconds after the epoch.
    pub fn from_unix_secs(secs: i64) -> (r: Timestamp)
        ensures
            r@ == secs as int * NANOS_PER_SEC as int,
    {
        assert(-0x8000_0000_0000_0000 * 1_000_000_000 <= secs as int * 1_000_000_000
            <= 0x7fff_ffff_ffff_ffff * 1_000_000_000) by (nonlinear_arith)
            requires
                -0x8000_0000_0000_0000 <= secs as int <= 0x7fff_ffff_ffff_ffff,
        ;
        Timestamp { nanos: secs as i128 * NANOS_PER_SEC }
    }

    /// The instant at a distance of `secs` seconds plus `subsec_nanos` nanoseconds from
    /// the epoch: before it when `before_epoch`, else after it.
    pub fn from_epoch_offset(before_epoch: bool, secs: u64, subsec_nanos: u32) -> (r: Timestamp)
        requires
            subsec_nanos < 1_000_000_000,
        ensures
            before_epoch ==> r@ == -(secs as int * NANOS_PER_SEC as int + subsec_nanos as int),
            !before_epoch ==> r@ == secs as int * NANOS_PER_SEC as int + subsec_nanos as int,
    {
        assert(secs as int * 1_000_000_000 <= 0xffff_ffff_ffff_ffff * 1_000_000_000)
            by (nonlinear_arith)
            requires
                secs as int <= 0xffff_ffff_ffff_ffff,
        ;
        let magnitude: i128 = secs as i128 * NANOS_PER_SEC + subsec_nanos as i128;
        if before_epoch {
            Timestamp { nanos: -magnitude }
        } else {
            Timestamp { nanos: magnitude }
        }
    }

    /// Whole seconds from the epoch, rounded towards the past.
    pub fn unix_secs_floor(&self) -> (r: i128)
        ensures
            r as int == self@ / NANOS_PER_SEC as int,
    {
        if self.nanos >= 0 {
            self.nanos / NANOS_PER_SEC
        } else {
            let back: i128 = -(self.nanos + 1);
            let q: i128 = back / NANOS_PER_SEC;
            assert(q as int == (-(self@ + 1)) / 1_000_000_000);
            assert(self@ / 1_000_000_000 == -q - 1) by (nonlinear_arith)
                requires
                    self@ < 0,
                    q == (-(self@ + 1)) / 1_000_000_000,
            ;
            -q - 1
        }
    }

    /// Whether this instant is not later than `other`.
    pub fn is_at_or_before(&self, other: &Timestamp) -> (r: bool)
        ensures
            r == (self@ <= other@),
    {
        self.nanos <= other.nanos
    }
}

/// The current instant as the system clock reports it.
pub fn now() -> (r: Timestamp) {
    match read_system_clock() {
        Ok(d) => Timestamp::from_epoch_offset(false, d.0, d.1),
        Err(d) => Timestamp::from_epoch_offset(true, d.0, d.1),
    }
}

/// Joins the high and low 32-bit halves of a 64-bit quantity (a file size or a tick
/// count as some platforms report them).
pub fn join_halves(high: u32, low: u32) -> (r: u64)
    ensures
        r as int == halves_value(high, low),
{
    (high as u64) * 0x1_0000_0000 + (low as u64)
}

/// Converts a raw tick count given as two halves (100 ns units since 1601-01-01) into an
/// instant; zero and any value before the Unix epoch mean "no timestamp".
pub fn filetime_to_timestamp(high: u32, low: u32) -> (r: Option<Timestamp>)
    ensures
        r == ticks_instant(halves_value(high, low)),
{
    let ticks = join_halves(high, low);
    if ticks < FILETIME_UNIX_EPOCH_TICKS {
        None
    } else {
        let since_epoch: u64 = ticks - FILETIME_UNIX_EPOCH_TICKS;
        Some(Timestamp { nanos: since_epoch as i128 * 100 })
    }
}

} // verus!
