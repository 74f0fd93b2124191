//! What an instance does in a run: the steps that it takes, what can come of
//! each, and which step follows.
//!
//! A run is at one stage at a time. The stage fixes the step to take, and what
//! comes of the step fixes the next stage.

use crate::address::{local_addr, AddressError, Interface};
use crate::announcement::{address_in, announcement_of, cid_in, Json};
use crate::content::cid_reading;
use crate::decimal::NumberError;
use crate::metrics::{metric_line, Metric};
use crate::network::{network_shape, NetworkShape, Setting, SettingError};
use crate::plan::{expected_listeners, Plan, Role};
use vstd::prelude::*;

verus! {

/// Why a run is given up.
#[derive(Clone, Copy, PartialEq, Eq, Structural, Debug)]
pub enum Failure {
    /// The network cannot be shaped.
    Setting(SettingError),
    /// The instance has no address.
    Address(AddressError),
    /// The content to offer has not exactly one root.
    Roots,
    /// An announcement lacks what it has to give.
    Announcement,
    /// An announced content identifier is none.
    Cid,
    /// The last step failed.
    Step,
    /// What came is no outcome of the last step.
    OutOfTurn,
}

impl Failure {
    /// What is said of the failure, where nothing is known that says more.
    pub open spec fn spec_message(self) -> Seq<char> {
        match self {
            Failure::Setting(
                SettingError::Missing(Setting::Latency),
            ) => "error getting latency from testground"@,
            Failure::Setting(
                SettingError::Missing(Setting::Bandwidth),
            ) => "error getting bandwith from testground"@,
            Failure::Setting(SettingError::NotANumber(_, error)) => error.spec_message(),
            Failure::Setting(
                SettingError::LatencyTooLong,
            ) => "out of range integral type conversion attempted"@,
            Failure::Address(AddressError::NoDataInterface) => "no interface is called eth1"@,
            Failure::Address(AddressError::Ipv6Unsupported) => "eth1 has an IPv6 address"@,
            Failure::Roots => "expected /fixtures/10MiB.car file to have one root cid"@,
            Failure::Announcement => "an announcement is incomplete"@,
            Failure::Cid => "an announced cid is invalid"@,
            Failure::Step => "the last step failed"@,
            Failure::OutOfTurn => "an event came out of turn"@,
        }
    }

    /// Whether what the plan takes for granted does not hold, so that the
    /// instance panics and returns no error.
    pub open spec fn spec_panics(self) -> bool {
        self is Address || self is Announcement
    }

    /// What is said of the failure, where nothing is known that says more.
    pub fn message(self) -> (text: String)
        ensures
            text@ == self.spec_message(),
    {
        match self {
            Failure::Setting(
                SettingError::Missing(Setting::Latency),
            ) => "error getting latency from testground".to_owned(),
            Failure::Setting(
                SettingError::Missing(Setting::Bandwidth),
            ) => "error getting bandwith from testground".to_owned(),
            Failure::Setting(SettingError::NotANumber(_, error)) => error.message(),
            Failure::Setting(
                SettingError::LatencyTooLong,
            ) => "out of range integral type conversion attempted".to_owned(),
            Failure::Address(
                AddressError::NoDataInterface,
            ) => "no interface is called eth1".to_owned(),
            Failure::Address(
                AddressError::Ipv6Unsupported,
            ) => "eth1 has an IPv6 address".to_owned(),
            Failure::Roots => "expected /fixtures/10MiB.car file to have one root cid".to_owned(),
            Failure::Announcement => "an announcement is incomplete".to_owned(),
            Failure::Cid => "an announced cid is invalid".to_owned(),
            Failure::Step => "the last step failed".to_owned(),
            Failure::OutOfTurn => "an event came out of turn".to_owned(),
        }
    }

    /// Whether what the plan takes for granted does not hold, so that the
    /// instance panics and returns no error.
    pub fn panics(self) -> (yes: bool)
        ensures
            yes == self.spec_panics(),
    {
        match self {
            Failure::Address(_) | Failure::Announcement => true,
            _ => false,
        }
    }
}

/// A step of a run, to be taken in the world outside.
pub enum Step {
    /// Have the network shaped, and wait until it is for every instance.
    ShapeNetwork(NetworkShape),
    /// List the network interfaces.
    ListInterfaces,
    /// Load the archive at this path.
    ImportFixture(Seq<char>),
    /// Begin to listen at this address.
    Listen(Seq<char>),
    /// Open at this address the endpoint to dial from.
    OpenEndpoint(Seq<char>),
    /// Publish on a topic.
    Publish(Seq<char>, Json),
    /// Subscribe to a topic, with room for this many announcements.
    Subscribe(Seq<char>, nat),
    /// Wait for the next announcement.
    NextAnnouncement,
    /// Connect to the listener at this address, which is certified for this
    /// name, where it is certified.
    Dial(Seq<char>, Option<Seq<char>>),
    /// Drop the subscription.
    Unsubscribe,
    /// Begin to fetch the content with this identifier.
    Fetch(Seq<char>),
    /// Wait for news of the fetch.
    NextUpdate,
    /// Write a measurement to the output.
    Report(Seq<char>),
    /// Signal a state.
    Signal(Seq<char>),
    /// Signal a state, and wait until this many instances have.
    SignalAndWait(Seq<char>, u64),
    /// Stop listening.
    StopListening,
    /// Record that the instance succeeded.
    RecordSuccess,
    /// Nothing is left to do.
    Finish,
    /// Give the run up, and say this.
    GiveUp(Failure, Seq<char>),
}

/// What can come of a step.
pub enum Outcome {
    /// The step was taken.
    Done,
    /// The step failed.
    Failed,
    /// The network interfaces.
    Interfaces(Seq<Interface>),
    /// The content identifiers of the roots of a loaded archive.
    Roots(Seq<Seq<char>>),
    /// An announcement.
    Announced(Json),
    /// No announcement will come any more.
    NoAnnouncement,
    /// News of a fetch, this many milliseconds after it began.
    Updated(u128),
    /// No news of the fetch will come any more; it began this many milliseconds ago.
    NoUpdate(u128),
}

/// How far a run has come.
pub enum Stage {
    Shaping(NetworkShape),
    Locating,
    Importing,
    Opening,
    Publishing,
    Subscribing,
    Collecting,
    Dialing(Seq<char>),
    Leaving,
    Fetching(Seq<char>),
    FirstUpdate,
    ReportingFirst(u128),
    Updates,
    ReportingLast(u128),
    Signalling,
    Stopping,
    Recording,
    Finished,
    Failed(Failure, Seq<char>),
}

/// A run of one instance.
pub struct Progress {
    pub plan: Plan,
    /// The sequence number of the instance.
    pub seq: u64,
    /// How many instances take part.
    pub instances: u64,
    /// The instance's own address, once it is known.
    pub addr: Seq<char>,
    /// The content that the instance offers, once it is known.
    pub offered: Option<Seq<char>>,
    /// How many announcements are still to be taken.
    pub awaited: nat,
    /// The content that was announced, in the order of the announcements.
    pub cids: Seq<Seq<char>>,
    /// How many of these the instance has begun to fetch.
    pub fetched: nat,
    pub stage: Stage,
}

/// The state that every instance signals when it is done.
pub open spec fn done_state() -> Seq<char> {
    "done"@
}

impl Progress {
    /// The part that the instance takes.
    pub open spec fn role(self) -> Role {
        self.plan.spec_role(self.seq)
    }

    /// The same run at another stage.
    pub open spec fn at(self, stage: Stage) -> Progress {
        Progress { stage, ..self }
    }

    /// The same run, given up.
    pub open spec fn failed(self, failure: Failure) -> Progress {
        self.at(Stage::Failed(failure, failure.spec_message()))
    }

    /// A run in which nothing has been done yet, at a given stage.
    pub open spec fn fresh(plan: Plan, seq: u64, instances: u64, stage: Stage) -> Progress {
        Progress {
            plan,
            seq,
            instances,
            addr: Seq::empty(),
            offered: None,
            awaited: expected_listeners(instances) as nat,
            cids: Seq::empty(),
            fetched: 0,
            stage,
        }
    }

    /// The first stage of an instance's part.
    pub open spec fn first_stage(plan: Plan, seq: u64) -> Stage {
        if plan.spec_role(seq) == Role::Dialer && !plan.spec_dials_from_endpoint() {
            Stage::Subscribing
        } else {
            Stage::Locating
        }
    }

    /// The beginning of a run.
    pub open spec fn begin(
        plan: Plan,
        seq: u64,
        instances: u64,
        params: Map<Seq<char>, Seq<char>>,
    ) -> Progress {
        let stage = if plan.spec_shapes_network() {
            match network_shape(params, instances) {
                Ok(shape) => Stage::Shaping(shape),
                Err(error) => Stage::Failed(
                    Failure::Setting(error),
                    Failure::Setting(error).spec_message(),
                ),
            }
        } else {
            Self::first_stage(plan, seq)
        };
        Self::fresh(plan, seq, instances, stage)
    }

    /// The step to take.
    pub open spec fn step(self) -> Step {
        match self.stage {
            Stage::Shaping(shape) => Step::ShapeNetwork(shape),
            Stage::Locating => Step::ListInterfaces,
            Stage::Importing => Step::ImportFixture(self.plan.spec_fixture()),
            Stage::Opening => if self.role() == Role::Listener {
                Step::Listen(self.addr)
            } else {
                Step::OpenEndpoint(self.addr)
            },
            Stage::Publishing => Step::Publish(
                self.plan.spec_topic(),
                announcement_of(self.seq, self.addr, self.offered),
            ),
            Stage::Subscribing => Step::Subscribe(
                self.plan.spec_topic(),
                expected_listeners(self.instances) as nat,
            ),
            Stage::Collecting => Step::NextAnnouncement,
            Stage::Dialing(addr) => Step::Dial(addr, self.plan.spec_server_name()),
            Stage::Leaving => Step::Unsubscribe,
            Stage::Fetching(cid) => Step::Fetch(cid),
            Stage::FirstUpdate | Stage::Updates => Step::NextUpdate,
            Stage::ReportingFirst(millis) => Step::Report(
                metric_line(Metric::RequesterTtfb, millis),
            ),
            Stage::ReportingLast(millis) => Step::Report(
                metric_line(Metric::RequesterFetchDuration, millis),
            ),
            Stage::Signalling => if self.role() == Role::Dialer && !self.plan.spec_dialer_waits() {
                Step::Signal(done_state())
            } else {
                Step::SignalAndWait(done_state(), self.instances)
            },
            Stage::Stopping => Step::StopListening,
            Stage::Recording => Step::RecordSuccess,
            Stage::Finished => Step::Finish,
            Stage::Failed(failure, message) => Step::GiveUp(failure, message),
        }
    }

    /// With its address known, an instance loads what it offers, if it offers
    /// anything, and then opens its endpoint.
    pub open spec fn located(self, interfaces: Seq<Interface>) -> Progress {
        match local_addr(interfaces, self.plan.spec_listening_port()) {
            Err(error) => self.failed(Failure::Address(error)),
            Ok(addr) => Progress {
                addr,
                stage: if self.plan.spec_has_content() && self.role() == Role::Listener {
                    Stage::Importing
                } else {
                    Stage::Opening
                },
                ..self
            },
        }
    }

    /// A loaded archive has to have one root: the content that is offered.
    pub open spec fn imported(self, roots: Seq<Seq<char>>) -> Progress {
        if roots.len() != 1 {
            self.failed(Failure::Roots)
        } else {
            Progress { offered: Some(roots[0]), stage: Stage::Opening, ..self }
        }
    }

    /// Takes the next announcement while any is awaited.
    pub open spec fn collecting(self) -> Progress {
        self.at(
            if self.awaited > 0 {
                Stage::Collecting
            } else {
                Stage::Leaving
            },
        )
    }

    /// Dials who announced itself, and keeps in mind what it offers.
    pub open spec fn announced(self, announcement: Json) -> Progress {
        let cids = if !self.plan.spec_has_content() {
            Some(self.cids)
        } else {
            match cid_in(announcement) {
                Some(cid) => Some(self.cids.push(cid)),
                None => None,
            }
        };
        match (cids, address_in(announcement)) {
            (Some(cids), Some(addr)) => Progress {
                awaited: if self.awaited > 0 {
                    (self.awaited - 1) as nat
                } else {
                    0
                },
                cids,
                stage: Stage::Dialing(addr),
                ..self
            },
            _ => self.failed(Failure::Announcement),
        }
    }

    /// Fetches the next announced content, where `read` is what its identifier
    /// was read as, or signals to be done where none is left.
    pub open spec fn fetching_read(self, read: Result<Seq<char>, Seq<char>>) -> Progress {
        if self.fetched >= self.cids.len() {
            self.at(Stage::Signalling)
        } else {
            match read {
                Ok(cid) => Progress {
                    fetched: self.fetched + 1,
                    stage: Stage::Fetching(cid),
                    ..self
                },
                Err(error) => self.at(Stage::Failed(Failure::Cid, error)),
            }
        }
    }

    /// Fetches the next announced content, or signals to be done where none is left.
    pub open spec fn fetching(self) -> Progress {
        self.fetching_read(cid_reading(self.cids[self.fetched as int]))
    }

    /// The run after `outcome` has come of its step. A run that is over stays
    /// as it is; every failed step ends the run.
    pub open spec fn next(self, outcome: Outcome) -> Progress {
        match (self.stage, outcome) {
            (Stage::Finished, _) | (Stage::Failed(_, _), _) => self,
            (_, Outcome::Failed) => self.failed(Failure::Step),
            (Stage::Shaping(_), Outcome::Done) => self.at(Self::first_stage(self.plan, self.seq)),
            (Stage::Locating, Outcome::Interfaces(interfaces)) => self.located(interfaces),
            (Stage::Importing, Outcome::Roots(roots)) => self.imported(roots),
            (Stage::Opening, Outcome::Done) => self.at(
                if self.role() == Role::Listener {
                    Stage::Publishing
                } else {
                    Stage::Subscribing
                },
            ),
            (Stage::Publishing, Outcome::Done) => self.at(Stage::Signalling),
            (Stage::Subscribing, Outcome::Done) => self.collecting(),
            (Stage::Collecting, Outcome::Announced(announcement)) => self.announced(announcement),
            (Stage::Collecting, Outcome::NoAnnouncement) => self.at(Stage::Leaving),
            (Stage::Dialing(_), Outcome::Done) => self.collecting(),
            (Stage::Leaving, Outcome::Done) => self.fetching(),
            (Stage::Fetching(_), Outcome::Done) => self.at(Stage::FirstUpdate),
            (Stage::FirstUpdate, Outcome::Updated(millis)) => self.at(
                if self.plan.spec_reports() {
                    Stage::ReportingFirst(millis)
                } else {
                    Stage::Updates
                },
            ),
            (Stage::FirstUpdate, Outcome::NoUpdate(_)) => self.at(Stage::Updates),
            (Stage::ReportingFirst(_), Outcome::Done) => self.at(Stage::Updates),
            (Stage::Updates, Outcome::Updated(_)) => self,
            (Stage::Updates, Outcome::NoUpdate(millis)) => if self.plan.spec_reports() {
                self.at(Stage::ReportingLast(millis))
            } else {
                self.fetching()
            },
            (Stage::ReportingLast(_), Outcome::Done) => self.fetching(),
            (Stage::Signalling, Outcome::Done) => self.at(
                if self.role() == Role::Listener && self.plan.spec_stops_listener() {
                    Stage::Stopping
                } else {
                    Stage::Recording
                },
            ),
            (Stage::Stopping, Outcome::Done) => self.at(Stage::Recording),
            (Stage::Recording, Outcome::Done) => self.at(Stage::Finished),
            _ => self.failed(Failure::OutOfTurn),
        }
    }
}

/// A parameter that is no number is told of in the same words whichever it is,
/// and only what a plan takes for granted makes an instance panic.
pub proof fn law_failures_are_told(setting: Setting, error: NumberError, failure: Failure)
    ensures
        Failure::Setting(SettingError::NotANumber(setting, error)).spec_message() == match error {
            NumberError::Empty => "cannot parse integer from empty string"@,
            NumberError::InvalidDigit => "invalid digit found in string"@,
            NumberError::TooLarge => "number too large to fit in target type"@,
        },
        Failure::Setting(SettingError::LatencyTooLong).spec_message()
            == "out of range integral type conversion attempted"@,
        Failure::Setting(SettingError::Missing(setting)).spec_message() == match setting {
            Setting::Latency => "error getting latency from testground"@,
            Setting::Bandwidth => "error getting bandwith from testground"@,
        },
        failure.spec_panics() <==> (failure is Address || failure is Announcement),
{
}

} // verus!
