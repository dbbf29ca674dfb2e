use vstd::prelude::*;

verus! {

/// How long a handler may take before the request fails with a timeout.
pub struct Timeout {
    secs: u64,
    nanos: u32,
}

impl Timeout {
    /// Well-formed: the nanoseconds are a fraction of a second.
    pub closed spec fn wf(&self) -> bool {
        self.nanos < 1_000_000_000
    }

    /// The length of this timeout in nanoseconds.
    pub closed spec fn total_nanos(&self) -> int {
        self.secs * 1_000_000_000 + self.nanos
    }

    /// A timeout of `secs` seconds and `nanos` nanoseconds.
    pub fn new(secs: u64, nanos: u32) -> (r: Timeout)
        requires
            nanos < 1_000_000_000,
        ensures
            r.wf(),
            r.total_nanos() == secs * 1_000_000_000 + nanos,
    {
        Timeout { secs, nanos }
    }

    /// A timeout of `millis` milliseconds.
    pub fn from_millis(millis: u64) -> (r: Timeout)
        ensures
            r.wf(),
            r.total_nanos() == millis * 1_000_000,
    {
        let secs = millis / 1000;
        let rest = (millis % 1000) as u32;
        assert(rest < 1000);
        Timeout { secs, nanos: rest * 1_000_000 }
    }

    /// A timeout of `secs` seconds.
    pub fn from_secs(secs: u64) -> (r: Timeout)
        ensures
            r.wf(),
            r.total_nanos() == secs * 1_000_000_000,
    {
        Timeout { secs, nanos: 0 }
    }

    /// The whole seconds of this timeout.
    pub fn secs(&self) -> (r: u64)
        requires
            self.wf(),
        ensures
            r == self.total_nanos() / 1_000_000_000,
    {
        self.secs
    }

    /// The nanoseconds past the whole seconds of this timeout.
    pub fn subsec_nanos(&self) -> (r: u32)
        requires
            self.wf(),
        ensures
            r == self.total_nanos() % 1_000_000_000,
    {
        self.nanos
    }
}

/// One of two values: which of two raced futures finished first.
#[derive(Clone, Copy, Debug, PartialEq, Eq, PartialOrd, Ord, Hash)]
pub enum Either<A, B> {
    /// First branch of the type
    Left(A),
    /// Second branch of the type
    Right(B),
}

/// The outcome of one poll of two raced futures, given what each produced
/// on this poll: the first one is looked at first, and nothing is ready
/// while neither is.
pub fn first_ready<A, B>(a: Option<A>, b: Option<B>) -> (r: Option<Either<A, B>>)
    ensures
        a.is_some() ==> r == Some(Either::<A, B>::Left(a.unwrap())),
        a.is_none() && b.is_some() ==> r == Some(Either::<A, B>::Right(b.unwrap())),
        a.is_none() && b.is_none() ==> r.is_none(),
{
    match a {
        Some(x) => Some(Either::Left(x)),
        None => match b {
            Some(y) => Some(Either::Right(y)),
            None => None,
        },
    }
}

} // verus!
