use vstd::prelude::*;

verus! {

/// `p` lies in the inclusive range `[low, high]`.
pub open spec fn in_range(low: u16, high: u16, p: u16) -> bool {
    low <= p && p <= high
}

/// `p` is the lowest port of `[low, high]` that `used` does not hold.
pub open spec fn is_lowest_free(used: Set<u16>, low: u16, high: u16, p: u16) -> bool {
    &&& in_range(low, high, p)
    &&& !used.contains(p)
    &&& forall|q: u16| low <= q < p ==> #[trigger] used.contains(q)
}

/// Every port of `[low, high]` is held by `used`.
pub open spec fn is_exhausted(used: Set<u16>, low: u16, high: u16) -> bool {
    forall|q: u16| in_range(low, high, q) ==> #[trigger] used.contains(q)
}

/// Hands out ports of an inclusive range, lowest free port first, and keeps
/// the set of ports in use.
pub struct PortAllocator {
    in_use: Vec<u16>,
    low: u16,
    high: u16,
}

impl PortAllocator {
    /// The ports currently marked in use.
    pub closed spec fn used(&self) -> Set<u16> {
        Set::new(|p: u16| self.in_use@.contains(p))
    }

    pub closed spec fn low(&self) -> u16 {
        self.low
    }

    pub closed spec fn high(&self) -> u16 {
        self.high
    }

    /// Each port is listed once, and every listed port lies in the range.
    pub closed spec fn wf(&self) -> bool {
        &&& self.in_use@.no_duplicates()
        &&& forall|i: int|
            0 <= i < self.in_use@.len() ==> in_range(self.low, self.high, #[trigger] self.in_use@[i])
    }

    /// An allocator over `[low, high]` with no port in use.
    pub fn new(low: u16, high: u16) -> (r: Self)
        ensures
            r.wf(),
            r.low() == low,
            r.high() == high,
            r.used() == Set::<u16>::empty(),
    {
        let r = PortAllocator { in_use: Vec::new(), low, high };
        assert(r.used() =~= Set::<u16>::empty());
        r
    }

    /// Whether `port` is marked in use.
    pub fn is_used(&self, port: u16) -> (r: bool)
        ensures
            r == self.used().contains(port),
    {
        let mut i: usize = 0;
        while i < self.in_use.len()
            invariant
                0 <= i <= self.in_use@.len(),
                forall|j: int| 0 <= j < i ==> self.in_use@[j] != port,
            decreases self.in_use@.len() - i,
        {
            if self.in_use[i] == port {
                return true;
            }
            i = i + 1;
        }
        false
    }

    /// Marks the lowest free port of the range as in use and returns it;
    /// `None` when every port of the range is in use.
    pub fn get_next_dynamic_port(&mut self) -> (r: Option<u16>)
        requires
            old(self).wf(),
        ensures
            final(self).wf(),
            final(self).low() == old(self).low(),
            final(self).high() == old(self).high(),
            match r {
                Some(p) => {
                    &&& is_lowest_free(old(self).used(), old(self).low(), old(self).high(), p)
                    &&& final(self).used() == old(self).used().insert(p)
                },
                None => {
                    &&& is_exhausted(old(self).used(), old(self).low(), old(self).high())
                    &&& final(self).used() == old(self).used()
                },
            },
    {
        if self.low > self.high {
            return None;
        }
        let mut port: u16 = self.low;
        loop
            invariant
                self.wf(),
                self.in_use@ == old(self).in_use@,
                self.low == old(self).low,
                self.high == old(self).high,
                self.low <= port <= self.high,
                forall|q: u16| self.low <= q < port ==> #[trigger] self.used().contains(q),
            decreases self.high - port,
        {
            if !self.is_used(port) {
                let ghost before = self.used();
                let ghost s0 = self.in_use@;
                self.in_use.push(port);
                assert forall|q: u16| #[trigger] self.used().contains(q) <==> before.insert(port).contains(q) by {
                    if s0.contains(q) {
                        let k = choose|k: int| 0 <= k < s0.len() && s0[k] == q;
                        assert(self.in_use@[k] == q);
                    }
                    if self.in_use@.contains(q) && q != port {
                        let k = choose|k: int| 0 <= k < self.in_use@.len() && self.in_use@[k] == q;
                        assert(k < s0.len());
                        assert(s0[k] == q);
                    }
                    assert(self.in_use@[s0.len() as int] == port);
                }
                assert(self.used() =~= before.insert(port));
                return Some(port);
            }
            if port == self.high {
                return None;
            }
            port = port + 1;
        }
    }

    /// Unmarks `port`; a port that is not in use is left alone.
    pub fn release(&mut self, port: u16)
        requires
            old(self).wf(),
        ensures
            final(self).wf(),
            final(self).low() == old(self).low(),
            final(self).high() == old(self).high(),
            final(self).used() == old(self).used().remove(port),
    {
        let mut i: usize = 0;
        while i < self.in_use.len()
            invariant
                self.wf(),
                self.in_use@ == old(self).in_use@,
                self.low == old(self).low,
                self.high == old(self).high,
                0 <= i <= self.in_use@.len(),
                forall|j: int| 0 <= j < i ==> self.in_use@[j] != port,
            decreases self.in_use@.len() - i,
        {
            if self.in_use[i] == port {
                let ghost before = self.in_use@;
                self.in_use.remove(i);
                assert forall|q: u16| #[trigger] self.in_use@.contains(q) <==> (before.contains(q) && q != port) by {
                    if before.contains(q) && q != port {
                        let k = choose|k: int| 0 <= k < before.len() && before[k] == q;
                        if k < i {
                            assert(self.in_use@[k] == q);
                        } else {
                            assert(self.in_use@[k - 1] == q);
                        }
                    }
                    if self.in_use@.contains(q) {
                        let k = choose|k: int| 0 <= k < self.in_use@.len() && self.in_use@[k] == q;
                        if k < i {
                            assert(before[k] == q);
                        } else {
                            assert(before[k + 1] == q);
                            assert(before[i as int] == port);
                        }
                    }
                }
                assert(self.used() =~= old(self).used().remove(port));
                return;
            }
            i = i + 1;
        }
        assert(self.used() =~= old(self).used().remove(port));
    }
}

} // verus!
