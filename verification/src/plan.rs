//! The test plans and what sets them apart.
//!
//! In every plan the instances pair up as listeners, which wait to be dialed,
//! and dialers, which do the dialing. Nobody dials a dialer, so two instances
//! never dial each other at once.

use crate::announcement::text_view;
use vstd::prelude::*;

verus! {

/// A test plan.
#[derive(Clone, Copy, PartialEq, Eq, Structural, Debug)]
pub enum Plan {
    /// Dialers open a TCP connection to each listener.
    Tcp,
    /// Dialers open a QUIC connection to each listener.
    Quic,
    /// Dialers fetch from each listener the content that it offers, and the
    /// plan reports how long that took.
    Krakensync,
    /// As `Krakensync`, on a network of given latency and bandwidth, with the
    /// measurements left to the sync protocol.
    KrakensyncShaped,
}

/// The part that an instance takes in a plan.
#[derive(Clone, Copy, PartialEq, Eq, Structural, Debug)]
pub enum Role {
    Listener,
    Dialer,
}

impl Plan {
    /// The port that listeners are reached at.
    pub open spec fn spec_listening_port(self) -> u16 {
        match self {
            Plan::Tcp => 1234,
            Plan::Quic => 4000,
            Plan::Krakensync | Plan::KrakensyncShaped => 31131,
        }
    }

    /// The topic that listeners announce themselves on.
    pub open spec fn spec_topic(self) -> Seq<char> {
        match self {
            Plan::Tcp | Plan::Quic => "server"@,
            Plan::Krakensync | Plan::KrakensyncShaped => "responders"@,
        }
    }

    /// Whether listeners offer content that dialers fetch.
    pub open spec fn spec_has_content(self) -> bool {
        self == Plan::Krakensync || self == Plan::KrakensyncShaped
    }

    /// The archive that listeners offer the content of.
    pub open spec fn spec_fixture(self) -> Seq<char> {
        match self {
            Plan::KrakensyncShaped => "/fixtures/10MiB.car"@,
            _ => "../../../fixtures/10MiB.car"@,
        }
    }

    /// Whether instances set up latency and bandwidth before anything else.
    pub open spec fn spec_shapes_network(self) -> bool {
        self == Plan::KrakensyncShaped
    }

    /// Whether dialers report how long each fetch took.
    pub open spec fn spec_reports(self) -> bool {
        self == Plan::Krakensync
    }

    /// Whether dialers dial from an endpoint of their own, at their own address.
    pub open spec fn spec_dials_from_endpoint(self) -> bool {
        self != Plan::Tcp
    }

    /// The name that a listener has to be certified for, where it is certified.
    pub open spec fn spec_server_name(self) -> Option<Seq<char>> {
        match self {
            Plan::Quic => Some("localhost"@),
            _ => None,
        }
    }

    /// Whether a dialer that is done waits until every other instance is.
    pub open spec fn spec_dialer_waits(self) -> bool {
        self != Plan::Tcp
    }

    /// Whether a listener's task runs on until it is stopped.
    pub open spec fn spec_stops_listener(self) -> bool {
        self == Plan::Tcp || self == Plan::Quic
    }

    /// The part of the instance with sequence number `seq`.
    pub open spec fn spec_role(self, seq: u64) -> Role {
        let odd = seq % 2 == 1;
        if odd == (self == Plan::Tcp) {
            Role::Listener
        } else {
            Role::Dialer
        }
    }

    /// The port that listeners are reached at.
    pub fn listening_port(self) -> (port: u16)
        ensures
            port == self.spec_listening_port(),
    {
        match self {
            Plan::Tcp => 1234,
            Plan::Quic => 4000,
            Plan::Krakensync | Plan::KrakensyncShaped => 31131,
        }
    }

    /// The topic that listeners announce themselves on.
    pub fn topic(self) -> (topic: String)
        ensures
            topic@ == self.spec_topic(),
    {
        match self {
            Plan::Tcp | Plan::Quic => "server".to_owned(),
            Plan::Krakensync | Plan::KrakensyncShaped => "responders".to_owned(),
        }
    }

    /// Whether listeners offer content that dialers fetch.
    pub fn has_content(self) -> (yes: bool)
        ensures
            yes == self.spec_has_content(),
    {
        match self {
            Plan::Krakensync | Plan::KrakensyncShaped => true,
            Plan::Tcp | Plan::Quic => false,
        }
    }

    /// The archive that listeners offer the content of.
    pub fn fixture(self) -> (path: String)
        ensures
            path@ == self.spec_fixture(),
    {
        match self {
            Plan::KrakensyncShaped => "/fixtures/10MiB.car".to_owned(),
            _ => "../../../fixtures/10MiB.car".to_owned(),
        }
    }

    /// The name that a listener has to be certified for, where it is certified.
    pub fn server_name(self) -> (name: Option<String>)
        ensures
            text_view(name) == self.spec_server_name(),
    {
        match self {
            Plan::Quic => Some("localhost".to_owned()),
            _ => None,
        }
    }

    /// The part of the instance with sequence number `seq`.
    pub fn role(self, seq: u64) -> (role: Role)
        ensures
            role == self.spec_role(seq),
    {
        let odd: bool = seq % 2 == 1;
        if odd == (self == Plan::Tcp) {
            Role::Listener
        } else {
            Role::Dialer
        }
    }
}

/// The number of listeners that a dialer expects in a run of `instances`
/// instances: one half of them.
pub open spec fn expected_listeners(instances: u64) -> usize {
    (instances as usize) / 2
}

/// The number of listeners that a dialer expects: one half of the instances.
pub fn listener_count(instances: u64) -> (count: usize)
    ensures
        count == expected_listeners(instances),
        instances <= usize::MAX ==> count == instances / 2,
{
    (instances as usize) / 2
}

/// How many of the instances with sequence numbers 1 to `n` are listeners.
pub open spec fn listeners_among(plan: Plan, n: nat) -> nat
    decreases n,
{
    if n == 0 {
        0
    } else {
        let before = listeners_among(plan, (n - 1) as nat);
        if plan.spec_role(n as u64) == Role::Listener {
            before + 1
        } else {
            before
        }
    }
}

/// Sequence numbers alternate between the two parts, beginning with the part
/// of the first instance.
proof fn lemma_listeners_among(plan: Plan, n: nat)
    requires
        n <= u64::MAX,
    ensures
        listeners_among(plan, n) == if plan == Plan::Tcp {
            (n + 1) / 2
        } else {
            n / 2
        },
    decreases n,
{
    if n > 0 {
        lemma_listeners_among(plan, (n - 1) as nat);
        assert(n as u64 == n);
    }
}

/// Instances are numbered from 1 up, one number each. Then there are exactly
/// as many listeners as every dialer expects; in the TCP plan one more, where
/// the number of instances is odd. Where the instances pair up there are as
/// many dialers.
pub proof fn law_half_of_the_instances_listen(plan: Plan, instances: u64)
    requires
        instances <= usize::MAX,
    ensures
        listeners_among(plan, instances as nat) == expected_listeners(instances) + if plan
            == Plan::Tcp && instances % 2 == 1 {
            1int
        } else {
            0int
        },
        instances % 2 == 0 ==> instances - listeners_among(plan, instances as nat)
            == expected_listeners(instances),
{
    lemma_listeners_among(plan, instances as nat);
}

/// Each of two neighbouring instances takes the part that the other does not.
pub proof fn law_neighbours_differ(plan: Plan, seq: u64)
    requires
        seq < u64::MAX,
    ensures
        plan.spec_role(seq) != plan.spec_role((seq + 1) as u64),
{
}

/// Whether a sequence number is odd decides the part, and nothing else does:
/// the odd ones listen in the TCP plan, the even ones in every other.
pub proof fn law_parity_decides(plan: Plan, seq: u64)
    ensures
        plan is Tcp ==> (plan.spec_role(seq) is Listener <==> seq % 2 == 1),
        !(plan is Tcp) ==> (plan.spec_role(seq) is Listener <==> seq % 2 == 0),
{
}

/// What sets the plans apart.
pub proof fn law_plans(plan: Plan)
    ensures
        plan.spec_listening_port() == match plan {
            Plan::Tcp => 1234u16,
            Plan::Quic => 4000u16,
            _ => 31131u16,
        },
        plan.spec_topic() == if plan is Tcp || plan is Quic {
            "server"@
        } else {
            "responders"@
        },
        plan.spec_has_content() == (plan is Krakensync || plan is KrakensyncShaped),
        plan.spec_shapes_network() == plan is KrakensyncShaped,
        plan.spec_reports() == plan is Krakensync,
        plan.spec_dials_from_endpoint() == !(plan is Tcp),
        plan.spec_dialer_waits() == !(plan is Tcp),
        plan.spec_stops_listener() == (plan is Tcp || plan is Quic),
        plan is Quic ==> plan.spec_server_name() == Some("localhost"@),
        !(plan is Quic) ==> plan.spec_server_name() is None,
{
}

/// Half of the instances are expected to listen, rounded down.
pub proof fn law_half_is_expected(instances: u64)
    requires
        instances <= usize::MAX,
    ensures
        2 * expected_listeners(instances) <= instances < 2 * expected_listeners(instances) + 2,
{
}

} // verus!
