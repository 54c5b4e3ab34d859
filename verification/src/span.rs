use vstd::prelude::*;

verus! {

/// What `format!("{:?}", Duration::new(secs, nanos))` writes.
pub uninterp spec fn duration_text(secs: u64, nanos: u32) -> Seq<char>;

/// The `Debug` rendering of a duration (std `<Duration as Debug>::fmt`,
/// on `Duration::new(secs, nanos)`): the contract claims only that it is a
/// function of the two fields, named [`duration_text`].
#[verifier::external_body]
fn duration_debug(secs: u64, nanos: u32) -> (r: String)
    requires
        nanos < 1_000_000_000,
    ensures
        r@ == duration_text(secs, nanos),
{
    format!("{:?}", std::time::Duration::new(secs, nanos))
}

/// A length of time: whole seconds and the nanoseconds beyond them, as a
/// `std::time::Duration` holds it.
#[derive(Clone, Copy, Debug, PartialEq, Eq, Structural)]
pub struct Span {
    pub secs: u64,
    pub nanos: u32,
}

impl Span {
    /// The nanoseconds part is below one second.
    pub open spec fn wf(self) -> bool {
        self.nanos < 1_000_000_000
    }

    /// The length in nanoseconds.
    pub open spec fn total(self) -> int {
        self.secs * 1_000_000_000 + self.nanos
    }

    /// The empty span (`Duration::new(0, 0)`).
    pub fn zero() -> (r: Span)
        ensures
            r.wf(),
            r.total() == 0,
            r.secs == 0 && r.nanos == 0,
    {
        Span { secs: 0, nanos: 0 }
    }

    /// A span from seconds and nanoseconds below one second.
    pub fn new(secs: u64, nanos: u32) -> (r: Span)
        requires
            nanos < 1_000_000_000,
        ensures
            r.wf(),
            r.secs == secs && r.nanos == nanos,
    {
        Span { secs, nanos }
    }

    /// The sum of two spans (`Duration + Duration`, which panics when the
    /// seconds overflow: that input is left out).
    pub fn add(&self, other: &Span) -> (r: Span)
        requires
            self.wf(),
            other.wf(),
            self.total() + other.total() < (u64::MAX as int + 1) * 1_000_000_000,
        ensures
            r.wf(),
            r.total() == self.total() + other.total(),
    {
        let n: u64 = self.nanos as u64 + other.nanos as u64;
        if n >= 1_000_000_000 {
            Span { secs: self.secs + other.secs + 1, nanos: (n - 1_000_000_000) as u32 }
        } else {
            Span { secs: self.secs + other.secs, nanos: n as u32 }
        }
    }

    /// The `Debug` text of the span, as `{:?}` shows a `Duration`.
    pub fn text(&self) -> (r: String)
        requires
            self.wf(),
        ensures
            r@ == duration_text(self.secs, self.nanos),
    {
        duration_debug(self.secs, self.nanos)
    }
}

} // verus!
