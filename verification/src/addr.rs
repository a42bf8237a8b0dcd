//! Portable, protocol-typed addresses and concrete routes.
//!
//! A portable address is an ordered sequence of typed segments, each a
//! protocol code and a textual payload. A route is the concrete sequence of
//! hop addresses the forwarding layer uses; it is derived from an address
//! all of whose segments are locally resolvable.

use crate::text::str_eq;
use vstd::prelude::*;

verus! {

/// Protocol code of a service segment.
pub const PROTO_SERVICE: u64 = 77;

/// Protocol code of a secure-channel marker segment.
pub const PROTO_SECURE: u64 = 78;

/// Protocol code of a worker segment.
pub const PROTO_WORKER: u64 = 79;

/// Protocol code of a node segment.
pub const PROTO_NODE: u64 = 66;

/// Protocol code of a project segment.
pub const PROTO_PROJECT: u64 = 91;

/// Protocol code of an IPv4 host segment.
pub const PROTO_IP4: u64 = 4;

/// Protocol code of a TCP port segment.
pub const PROTO_TCP: u64 = 6;

/// Protocol code of a DNS name segment.
pub const PROTO_DNS: u64 = 56;

/// One typed segment of a portable address.
#[derive(Debug)]
pub struct Segment {
    /// The protocol code.
    pub code: u64,
    /// The textual payload.
    pub data: String,
}

impl Segment {
    /// A new segment.
    pub fn new(code: u64, data: &str) -> (r: Segment)
        ensures
            r.code == code,
            r.data@ == data@,
    {
        Segment { code, data: data.to_owned() }
    }

    /// The view of a segment: its code and the characters of its payload.
    pub open spec fn view(&self) -> (u64, Seq<char>) {
        (self.code, self.data@)
    }

    /// A copy of this segment.
    pub fn duplicate(&self) -> (r: Segment)
        ensures
            r.view() == self.view(),
    {
        Segment { code: self.code, data: self.data.clone() }
    }
}

/// A portable address: an ordered sequence of typed segments.
#[derive(Debug)]
pub struct Addr {
    /// The segments, outermost first.
    pub segs: Vec<Segment>,
}

impl Addr {
    /// The view of an address: the sequence of its segments' views.
    pub open spec fn view(&self) -> Seq<(u64, Seq<char>)> {
        self.segs@.map_values(|s: Segment| s.view())
    }

    /// The empty address.
    pub fn empty() -> (r: Addr)
        ensures
            r.view() =~= Seq::<(u64, Seq<char>)>::empty(),
    {
        Addr { segs: Vec::new() }
    }

    /// A copy of this address.
    pub fn duplicate(&self) -> (r: Addr)
        ensures
            r.view() =~= self.view(),
    {
        let mut segs: Vec<Segment> = Vec::new();
        let mut i: usize = 0;
        while i < self.segs.len()
            invariant
                0 <= i <= self.segs@.len(),
                segs@.len() == i,
                forall|k: int| 0 <= k < i ==> (#[trigger] segs@[k]).view() == self.segs@[k].view(),
            decreases self.segs@.len() - i,
        {
            segs.push(self.segs[i].duplicate());
            i = i + 1;
        }
        Addr { segs }
    }

    /// The number of segments.
    pub fn len(&self) -> (r: usize)
        ensures
            r == self.view().len(),
    {
        self.segs.len()
    }

    /// Whether the address has no segments.
    pub fn is_empty(&self) -> (r: bool)
        ensures
            r == (self.view().len() == 0),
    {
        self.segs.len() == 0
    }

    /// Appends a segment.
    pub fn push(&mut self, seg: Segment)
        ensures
            final(self).view() =~= old(self).view().push(seg.view()),
    {
        self.segs.push(seg);
    }

    /// The segment at `i`.
    pub fn at(&self, i: usize) -> (r: &Segment)
        requires
            i < self.view().len(),
        ensures
            r.view() == self.view()[i as int],
    {
        &self.segs[i]
    }

    /// The first segment, if any.
    pub fn first(&self) -> (r: Option<&Segment>)
        ensures
            match r {
                Some(s) => self.view().len() > 0 && s.view() == self.view()[0],
                None => self.view().len() == 0,
            },
    {
        if self.segs.len() > 0 {
            Some(&self.segs[0])
        } else {
            None
        }
    }

    /// The last segment, if any.
    pub fn last(&self) -> (r: Option<&Segment>)
        ensures
            match r {
                Some(s) => self.view().len() > 0 && s.view() == self.view()[self.view().len()
                    - 1],
                None => self.view().len() == 0,
            },
    {
        if self.segs.len() > 0 {
            Some(&self.segs[self.segs.len() - 1])
        } else {
            None
        }
    }

    /// Removes the last segment, if any.
    pub fn pop_back(&mut self)
        ensures
            old(self).view().len() == 0 ==> final(self).view() =~= old(self).view(),
            old(self).view().len() > 0 ==> final(self).view() =~= old(self).view().drop_last(),
    {
        if self.segs.len() > 0 {
            self.segs.pop();
        }
    }

    /// This address followed by all segments of `other`.
    pub fn concat(&self, other: &Addr) -> (r: Addr)
        ensures
            r.view() =~= self.view() + other.view(),
    {
        let mut segs: Vec<Segment> = Vec::new();
        let mut i: usize = 0;
        while i < self.segs.len()
            invariant
                0 <= i <= self.segs@.len(),
                segs@.len() == i,
                forall|k: int| 0 <= k < i ==> (#[trigger] segs@[k]).view() == self.segs@[k].view(),
            decreases self.segs@.len() - i,
        {
            segs.push(self.segs[i].duplicate());
            i = i + 1;
        }
        let mut j: usize = 0;
        while j < other.segs.len()
            invariant
                0 <= j <= other.segs@.len(),
                segs@.len() == self.segs@.len() + j,
                forall|k: int|
                    0 <= k < self.segs@.len() ==> (#[trigger] segs@[k]).view()
                        == self.segs@[k].view(),
                forall|k: int|
                    0 <= k < j ==> (#[trigger] segs@[self.segs@.len() + k]).view()
                        == other.segs@[k].view(),
            decreases other.segs@.len() - j,
        {
            segs.push(other.segs[j].duplicate());
            j = j + 1;
        }
        proof {
            assert forall|k: int| 0 <= k < segs@.len() implies segs@.map_values(
                |s: Segment| s.view(),
            )[k] == (self.view() + other.view())[k] by {
                if k < self.segs@.len() {
                    assert(segs@[k].view() == self.segs@[k].view());
                } else {
                    assert(segs@[self.segs@.len() + (k - self.segs@.len())].view()
                        == other.segs@[k - self.segs@.len()].view());
                }
            }
            assert(segs@.map_values(|s: Segment| s.view()) =~= self.view() + other.view());
        }
        Addr { segs }
    }

    /// The first `n` segments of this address; all of them when it has
    /// fewer.
    pub fn first_n(&self, n: usize) -> (r: Addr)
        ensures
            r.view() =~= self.view().take(if n <= self.view().len() {
                n as int
            } else {
                self.view().len() as int
            }),
    {
        let end = if n <= self.segs.len() {
            n
        } else {
            self.segs.len()
        };
        let mut segs: Vec<Segment> = Vec::new();
        let mut i: usize = 0;
        while i < end
            invariant
                0 <= i <= end <= self.segs@.len(),
                segs@.len() == i,
                forall|k: int| 0 <= k < i ==> (#[trigger] segs@[k]).view() == self.segs@[k].view(),
            decreases end - i,
        {
            segs.push(self.segs[i].duplicate());
            i = i + 1;
        }
        Addr { segs }
    }

    /// This address without its first `n` segments; empty when it has fewer.
    pub fn skip_n(&self, n: usize) -> (r: Addr)
        ensures
            r.view() =~= self.view().skip(if n <= self.view().len() {
                n as int
            } else {
                self.view().len() as int
            }),
    {
        let start = if n <= self.segs.len() {
            n
        } else {
            self.segs.len()
        };
        let mut segs: Vec<Segment> = Vec::new();
        let mut i: usize = start;
        while i < self.segs.len()
            invariant
                start <= i <= self.segs@.len(),
                segs@.len() == i - start,
                forall|k: int|
                    0 <= k < i - start ==> (#[trigger] segs@[k]).view() == self.segs@[start
                        + k].view(),
            decreases self.segs@.len() - i,
        {
            segs.push(self.segs[i].duplicate());
            i = i + 1;
        }
        Addr { segs }
    }

    /// Whether the segments from position `start` on begin with the given
    /// protocol codes, one segment per code.
    pub fn matches(&self, start: usize, codes: &[u64]) -> (r: bool)
        ensures
            r == spec_matches(self.view(), start as int, codes@),
    {
        let n = self.segs.len();
        if codes.len() > n || start > n - codes.len() {
            return false;
        }
        let mut k: usize = 0;
        while k < codes.len()
            invariant
                0 <= k <= codes@.len(),
                n == self.segs@.len(),
                start + codes@.len() <= n,
                forall|t: int| 0 <= t < k ==> self.view()[start + t].0 == codes@[t],
            decreases codes@.len() - k,
        {
            if self.segs[start + k].code != codes[k] {
                return false;
            }
            k = k + 1;
        }
        true
    }
}

/// Whether the segments of `a` from position `start` on begin with the
/// given protocol codes.
pub open spec fn spec_matches(a: Seq<(u64, Seq<char>)>, start: int, codes: Seq<u64>) -> bool {
    &&& start + codes.len() <= a.len()
    &&& 0 <= start
    &&& forall|t: int| 0 <= t < codes.len() ==> a[start + t].0 == codes[t]
}

/// A concrete route: the hop addresses the forwarding layer follows.
pub type Route = Vec<String>;

/// Whether a protocol code is locally resolvable: such a segment can become
/// a hop of a route without dialing out.
pub open spec fn spec_is_local_code(c: u64) -> bool {
    c == PROTO_SERVICE || c == PROTO_SECURE || c == PROTO_WORKER || c == PROTO_NODE
}

/// Whether every segment of `a` is locally resolvable.
pub open spec fn spec_all_local(a: Seq<(u64, Seq<char>)>) -> bool {
    forall|k: int| 0 <= k < a.len() ==> spec_is_local_code(#[trigger] a[k].0)
}

/// Whether a protocol code is locally resolvable.
pub fn is_local_code(c: u64) -> (r: bool)
    ensures
        r == spec_is_local_code(c),
{
    c == PROTO_SERVICE || c == PROTO_SECURE || c == PROTO_WORKER || c == PROTO_NODE
}

/// The hops of the route an all-local address denotes: the payload of each
/// segment in order.
pub open spec fn spec_route_of(a: Seq<(u64, Seq<char>)>) -> Seq<Seq<char>> {
    a.map_values(|s: (u64, Seq<char>)| s.1)
}

/// Derives a route from an address whose segments are all locally
/// resolvable, one hop per segment; fails exactly when some segment is not.
pub fn local_multiaddr_to_route(a: &Addr) -> (r: Option<Route>)
    ensures
        match r {
            Some(h) => spec_all_local(a.view()) && h@.map_values(|p: String| p@) =~= spec_route_of(
                a.view(),
            ),
            None => !spec_all_local(a.view()),
        },
{
    let mut hops: Vec<String> = Vec::new();
    let mut i: usize = 0;
    while i < a.segs.len()
        invariant
            0 <= i <= a.segs@.len(),
            forall|k: int| 0 <= k < i ==> spec_is_local_code(#[trigger] a.view()[k].0),
            hops@.len() == i,
            forall|k: int| 0 <= k < i ==> (#[trigger] hops@[k])@ == a.segs@[k].view().1,
        decreases a.segs@.len() - i,
    {
        if !is_local_code(a.segs[i].code) {
            assert(!spec_is_local_code(a.view()[i as int].0));
            return None;
        }
        hops.push(a.segs[i].data.clone());
        i = i + 1;
    }
    assert(hops@.map_values(|p: String| p@) =~= spec_route_of(a.view()));
    Some(hops)
}

/// Translates an address into the local worker address it names: the
/// payload of its single, locally resolvable segment. Fails exactly when
/// the address has another shape.
pub fn try_multiaddr_to_addr(a: &Addr) -> (r: Option<String>)
    ensures
        match r {
            Some(w) => a.view().len() == 1 && spec_is_local_code(a.view()[0].0) && w@ == a.view(
            )[0].1,
            None => !(a.view().len() == 1 && spec_is_local_code(a.view()[0].0)),
        },
{
    if a.segs.len() == 1 && is_local_code(a.segs[0].code) {
        Some(a.segs[0].data.clone())
    } else {
        None
    }
}

/// The marker payload that names an outlet's initial lookup service.
pub open spec fn spec_outlet_marker() -> Seq<char> {
    "outlet"@
}

/// Whether the last segment of `a` is the outlet lookup marker: a service
/// segment whose payload is the marker text.
pub open spec fn spec_ends_with_outlet(a: Seq<(u64, Seq<char>)>) -> bool {
    a.len() > 0 && a[a.len() - 1].0 == PROTO_SERVICE && a[a.len() - 1].1 == spec_outlet_marker()
}

/// What remains of `a` once a trailing outlet lookup marker is stripped.
pub open spec fn spec_without_outlet_address(a: Seq<(u64, Seq<char>)>) -> Seq<(u64, Seq<char>)> {
    if spec_ends_with_outlet(a) {
        a.drop_last()
    } else {
        a
    }
}

/// Strips the trailing outlet lookup marker, if the address carries one: a
/// recovered route must not keep the marker used only for the initial
/// outlet lookup.
pub fn without_outlet_address(addr: Addr) -> (r: Addr)
    ensures
        r.view() =~= spec_without_outlet_address(addr.view()),
{
    let mut addr = addr;
    let strip = match addr.last() {
        Some(p) => p.code == PROTO_SERVICE && str_eq(p.data.as_str(), "outlet"),
        None => false,
    };
    if strip {
        addr.pop_back();
    }
    addr
}

} // verus!
