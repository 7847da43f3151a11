//! Addresses and connection parameters.

use vstd::prelude::*;

verus! {

/// The kind of a random device address.
pub const ADDR_KIND_RANDOM: u8 = 1;

/// A Bluetooth device address and its kind.
#[derive(Clone, Copy, Debug)]
pub struct Address {
    pub kind: u8,
    pub addr: [u8; 6],
}

/// Whether two device addresses hold the same bytes.
pub fn same_bytes(a: &[u8; 6], b: &[u8; 6]) -> (r: bool)
    ensures
        r == (a@ == b@),
{
    let r = a[0] == b[0] && a[1] == b[1] && a[2] == b[2] && a[3] == b[3] && a[4] == b[4] && a[5]
        == b[5];
    if r {
        assert(a@ =~= b@);
    }
    r
}

impl Address {
    /// A random address.
    pub fn random(addr: [u8; 6]) -> (r: Self)
        ensures
            r.kind == ADDR_KIND_RANDOM,
            r.addr == addr,
    {
        Address { kind: ADDR_KIND_RANDOM, addr }
    }

    /// Whether both name the same device. A controller may report an address that
    /// it resolved under an identity kind, which differs in its second bit only.
    pub open spec fn names(self, other: Address) -> bool {
        self.addr@ == other.addr@ && self.kind % 2 == other.kind % 2
    }

    pub fn same(&self, other: &Address) -> (r: bool)
        ensures
            r == self.names(*other),
    {
        self.kind % 2 == other.kind % 2 && same_bytes(&self.addr, &other.addr)
    }
}

/// What a central asks of a link. Times are in microseconds.
#[derive(Clone, Copy, Debug, PartialEq, Eq, Structural)]
pub struct ConnParams {
    pub min_interval_us: u64,
    pub max_interval_us: u64,
    /// Connection events that the peripheral may skip.
    pub max_latency: u16,
    pub supervision_timeout_us: u64,
}

impl ConnParams {
    /// What the Bluetooth specification asks for: the interval range is a range,
    /// and a peripheral that uses its whole latency is still heard twice before
    /// the link counts as lost.
    pub open spec fn sound(self) -> bool {
        &&& self.min_interval_us <= self.max_interval_us
        &&& 2 * (1 + self.max_latency) * self.max_interval_us < self.supervision_timeout_us
    }
}

// ---------------------------------------------------------------------------
// Laws
// ---------------------------------------------------------------------------

/// The two kinds of public address name the same device, and so do the two kinds of random
/// address; a public address names no device of a random one, and other bytes another device.
pub proof fn law_an_identity_kind_names_the_same_device(a: Address, b: Address, c: Address)
    ensures
        a.names(a),
        a.names(b) <==> b.names(a),
        a.names(b) && b.names(c) ==> a.names(c),
        a.kind <= 3 && b.kind <= 3 && a.addr@ == b.addr@ ==> (a.names(b) <==> (a.kind == 0
            || a.kind == 2) == (b.kind == 0 || b.kind == 2)),
        a.addr@ != b.addr@ ==> !a.names(b),
{
}

/// A sound link still hears a peripheral twice that skips every event it may.
pub proof fn law_a_sound_link_survives_its_latency(p: ConnParams, skipped: int)
    requires
        p.sound(),
        0 <= skipped <= p.max_latency,
    ensures
        p.min_interval_us <= p.max_interval_us,
        2 * ((skipped + 1) * p.max_interval_us) < p.supervision_timeout_us,
{
    assert((skipped + 1) * p.max_interval_us <= (1 + p.max_latency) * p.max_interval_us)
        by (nonlinear_arith)
        requires
            0 <= skipped <= p.max_latency,
    ;
    assert(2 * (1 + p.max_latency) * p.max_interval_us == 2 * ((1 + p.max_latency)
        * p.max_interval_us)) by (nonlinear_arith);
}

} // verus!
