use vstd::prelude::*;

verus! {

pub const NANOS_PER_SEC: u64 = 1_000_000_000;

#[verifier::external_type_specification]
#[verifier::external_body]
pub struct ExInstant(std::time::Instant);

/// Relies on std::time::Instant::now: a reading of the monotonic clock.
#[verifier::external_body]
fn clock_now() -> (r: std::time::Instant) {
    std::time::Instant::now()
}

/// Relies on std::time::Instant::elapsed: the time since `start` as whole
/// seconds and the nanoseconds past them, which `Duration` keeps below one
/// second.
#[verifier::external_body]
fn elapsed_parts(start: &std::time::Instant) -> (r: (u64, u32))
    ensures
        r.1 < NANOS_PER_SEC,
{
    let d = start.elapsed();
    (d.as_secs(), d.subsec_nanos())
}

/// Whole span in nanoseconds of `secs` seconds and `subsec` nanoseconds,
/// held at `u64::MAX` where it does not fit.
pub open spec fn span_nanos(secs: u64, subsec: u32) -> u64 {
    let t = secs * NANOS_PER_SEC + subsec;
    if t > u64::MAX {
        u64::MAX
    } else {
        t as u64
    }
}

/// The full length in nanoseconds of a span given as seconds and the
/// nanoseconds past them, saturating at `u64::MAX`.
pub fn full_nanos(secs: u64, subsec: u32) -> (r: u64)
    ensures
        r == span_nanos(secs, subsec),
        secs > 0 ==> r >= NANOS_PER_SEC,
        r >= subsec,
{
    match secs.checked_mul(NANOS_PER_SEC) {
        Some(whole) => whole.saturating_add(subsec as u64),
        None => u64::MAX,
    }
}

/// A call's result with the monotonic time it took: whole seconds, the
/// nanoseconds past them, and the full span in nanoseconds.
#[derive(Clone, Copy, Debug, PartialEq, Eq, Structural)]
pub struct Timed {
    pub ret: i32,
    pub secs: u64,
    pub subsec: u32,
    pub nanos: u64,
}

impl Timed {
    /// The measured parts agree with the full span.
    pub open spec fn wf(&self) -> bool {
        self.subsec < NANOS_PER_SEC && self.nanos == span_nanos(self.secs, self.subsec)
    }
}

/// Runs `function` once and returns its result with the full monotonic time
/// it took.
pub fn benchmark<F: Fn() -> i32>(function: F) -> (r: Timed)
    requires
        function.requires(()),
    ensures
        function.ensures((), r.ret),
        r.wf(),
{
    let start = clock_now();
    let ret = function();
    let (secs, subsec) = elapsed_parts(&start);
    Timed { ret, secs, subsec, nanos: full_nanos(secs, subsec) }
}

/// Forwards to the real implementation when it was resolved, timing the
/// call; gives `None`, without calling anything, when it was not.
pub fn forward_timed<F: Fn() -> i32>(next: Option<F>) -> (r: Option<Timed>)
    requires
        next matches Some(f) ==> f.requires(()),
    ensures
        next is None <==> r is None,
        next matches Some(f) ==> f.ensures((), r.unwrap().ret),
        r matches Some(t) ==> t.wf(),
{
    match next {
        Some(f) => Some(benchmark(f)),
        None => None,
    }
}

} // verus!
