use vstd::prelude::*;

verus! {

/// What an entry of the timeline observed.
#[derive(Clone, Copy, Debug, PartialEq, Eq, Structural)]
pub enum EventKind {
    Init,
    Fini,
    Open,
    Close,
}

/// One observation in the timeline.
#[derive(Debug)]
pub struct Event {
    /// Bytes of the path argument; empty where the call has none.
    pub path: Vec<u8>,
    pub event_type: EventKind,
    /// Elapsed nanoseconds of the wrapped call, or a timestamp for a sentinel.
    pub duration: u64,
    /// Descriptor returned by `open`, or the one given to `close`; zero for a sentinel.
    pub fd: i32,
}

/// A kind that stands for an intercepted call rather than a lifecycle marker.
pub open spec fn is_call_kind(k: EventKind) -> bool {
    k == EventKind::Open || k == EventKind::Close
}

/// The name under which a kind appears in the report, as ASCII bytes:
/// `init`, `fini`, `open` and `close`.
pub open spec fn kind_name(k: EventKind) -> Seq<u8> {
    match k {
        EventKind::Init => seq![105u8, 110u8, 105u8, 116u8],
        EventKind::Fini => seq![102u8, 105u8, 110u8, 105u8],
        EventKind::Open => seq![111u8, 112u8, 101u8, 110u8],
        EventKind::Close => seq![99u8, 108u8, 111u8, 115u8, 101u8],
    }
}

/// The path recorded for the two lifecycle markers: `__PROCESS__` in ASCII.
pub open spec fn sentinel_path() -> Seq<u8> {
    seq![95u8, 95u8, 80u8, 82u8, 79u8, 67u8, 69u8, 83u8, 83u8, 95u8, 95u8]
}

impl EventKind {
    /// The report name of this kind, as bytes.
    pub fn name(&self) -> (r: Vec<u8>)
        ensures
            r@ == kind_name(*self),
    {
        match self {
            EventKind::Init => vec![105u8, 110u8, 105u8, 116u8],
            EventKind::Fini => vec![102u8, 105u8, 110u8, 105u8],
            EventKind::Open => vec![111u8, 112u8, 101u8, 110u8],
            EventKind::Close => vec![99u8, 108u8, 111u8, 115u8, 101u8],
        }
    }
}

/// Builds a lifecycle marker carrying the given timestamp.
pub fn sentinel(kind: EventKind, stamp: u64) -> (r: Event)
    requires
        !is_call_kind(kind),
    ensures
        r.path@ == sentinel_path(),
        r.event_type == kind,
        r.duration == stamp,
        r.fd == 0,
{
    let path: Vec<u8> = vec![95u8, 95u8, 80u8, 82u8, 79u8, 67u8, 69u8, 83u8, 83u8, 95u8, 95u8];
    Event { path, event_type: kind, duration: stamp, fd: 0 }
}

} // verus!
