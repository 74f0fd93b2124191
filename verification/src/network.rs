//! The shape of the network that a plan runs on, read from the parameters of
//! the run.

use crate::announcement::text_view;
use crate::decimal::{decimal, law_decimal_reads_back, parse_u64, read_u64, NumberError};
use vstd::prelude::*;

verus! {

/// How many nanoseconds a millisecond has.
pub const NANOS_PER_MILLI: u128 = 1_000_000;

/// The parameters that a run was started with, by name. No name occurs twice.
pub struct InstanceParams {
    entries: Vec<(String, String)>,
}

impl View for InstanceParams {
    type V = Map<Seq<char>, Seq<char>>;

    closed spec fn view(&self) -> Map<Seq<char>, Seq<char>> {
        entries_map(self.entries@)
    }
}

/// The map that a row of entries stands for.
spec fn entries_map(entries: Seq<(String, String)>) -> Map<Seq<char>, Seq<char>>
    decreases entries.len(),
{
    if entries.len() == 0 {
        Map::empty()
    } else {
        entries_map(entries.drop_last()).insert(entries.last().0@, entries.last().1@)
    }
}

/// Whether no name occurs twice in `entries`.
spec fn distinct_names(entries: Seq<(String, String)>) -> bool {
    forall|i: int, j: int|
        0 <= i < j < entries.len() ==> (#[trigger] entries[i]).0@ != (#[trigger] entries[j]).0@
}

/// What a row of entries maps a name to is the value that stands beside it.
proof fn lemma_entries_map(entries: Seq<(String, String)>)
    requires
        distinct_names(entries),
    ensures
        forall|i: int|
            0 <= i < entries.len() ==> {
                &&& entries_map(entries).contains_key((#[trigger] entries[i]).0@)
                &&& entries_map(entries)[entries[i].0@] == entries[i].1@
            },
        forall|name: Seq<char>| #[trigger]
            entries_map(entries).contains_key(name) ==> exists|i: int|
                0 <= i < entries.len() && (#[trigger] entries[i]).0@ == name,
    decreases entries.len(),
{
    if entries.len() > 0 {
        let front = entries.drop_last();
        let last = entries.len() - 1;
        assert forall|i: int, j: int| 0 <= i < j < front.len() implies (#[trigger] front[i]).0@ != (
        #[trigger] front[j]).0@ by {
            assert(entries[i].0@ != entries[j].0@);
        }
        lemma_entries_map(front);
        assert forall|i: int| 0 <= i < entries.len() implies {
            &&& entries_map(entries).contains_key((#[trigger] entries[i]).0@)
            &&& entries_map(entries)[entries[i].0@] == entries[i].1@
        } by {
            if i < last {
                assert(front[i] == entries[i]);
                assert(entries[i].0@ != entries[last].0@);
            }
        }
        assert forall|name: Seq<char>| #[trigger]
            entries_map(entries).contains_key(name) implies exists|i: int|
            0 <= i < entries.len() && (#[trigger] entries[i]).0@ == name by {
            if entries[last].0@ != name {
                assert(entries_map(front).contains_key(name));
                let i = choose|i: int| 0 <= i < front.len() && (#[trigger] front[i]).0@ == name;
                assert(entries[i] == front[i]);
            }
        }
    }
}

/// Replacing an entry by one of the same name changes what that name maps to,
/// and nothing else.
proof fn lemma_entries_update(entries: Seq<(String, String)>, k: int, entry: (String, String))
    requires
        distinct_names(entries),
        0 <= k < entries.len(),
        entry.0@ == entries[k].0@,
    ensures
        distinct_names(entries.update(k, entry)),
        entries_map(entries.update(k, entry)) == entries_map(entries).insert(entry.0@, entry.1@),
{
    let updated = entries.update(k, entry);
    assert forall|i: int, j: int| 0 <= i < j < updated.len() implies (#[trigger] updated[i]).0@ != (
    #[trigger] updated[j]).0@ by {
        assert(entries[i].0@ != entries[j].0@);
    }
    lemma_entries_map(entries);
    lemma_entries_map(updated);
    let before = entries_map(entries).insert(entry.0@, entry.1@);
    let after = entries_map(updated);
    assert forall|name: Seq<char>| before.contains_key(name) implies {
        &&& #[trigger] after.contains_key(name)
        &&& before[name] == after[name]
    } by {
        if name == entry.0@ {
            assert(updated[k].0@ == name);
        } else {
            let i = choose|i: int| 0 <= i < entries.len() && (#[trigger] entries[i]).0@ == name;
            assert(updated[i] == entries[i]);
        }
    }
    assert forall|name: Seq<char>| #[trigger] after.contains_key(name) implies before.contains_key(
        name,
    ) by {
        let i = choose|i: int| 0 <= i < updated.len() && (#[trigger] updated[i]).0@ == name;
        assert(entries[i].0@ == name);
    }
    assert(before.dom() =~= after.dom());
    assert(before =~= after);
}

impl InstanceParams {
    /// No name occurs twice.
    #[verifier::type_invariant]
    spec fn well_formed(self) -> bool {
        distinct_names(self.entries@)
    }

    /// No parameters.
    pub fn new() -> (params: Self)
        ensures
            params@ == Map::<Seq<char>, Seq<char>>::empty(),
    {
        InstanceParams { entries: Vec::new() }
    }

    /// Where the parameter `name` stands among the entries.
    fn position(&self, name: &String) -> (found: Option<usize>)
        ensures
            match found {
                Some(i) => i < self.entries@.len() && self.entries@[i as int].0@ == name@,
                None => forall|i: int|
                    0 <= i < self.entries@.len() ==> (#[trigger] self.entries@[i]).0@ != name@,
            },
    {
        let mut i: usize = 0;
        while i < self.entries.len()
            invariant
                i <= self.entries@.len(),
                forall|j: int| 0 <= j < i ==> (#[trigger] self.entries@[j]).0@ != name@,
            decreases self.entries@.len() - i,
        {
            if self.entries[i].0 == *name {
                return Some(i);
            }
            i += 1;
        }
        None
    }

    /// The parameters with `name` set to `value`, whatever it was before.
    pub fn with(self, name: String, value: String) -> (params: Self)
        ensures
            params@ == self@.insert(name@, value@),
    {
        proof {
            use_type_invariant(&self);
        }
        let place: Option<usize> = self.position(&name);
        let InstanceParams { mut entries } = self;
        match place {
            Some(i) => {
                proof {
                    lemma_entries_update(entries@, i as int, (name, value));
                }
                entries.set(i, (name, value));
            },
            None => {
                let ghost before = entries@;
                entries.push((name, value));
                assert(entries@.drop_last() =~= before);
            },
        }
        InstanceParams { entries }
    }

    /// The value of the parameter `name`.
    pub fn get(&self, name: &String) -> (value: Option<&String>)
        ensures
            match value {
                Some(v) => self@.contains_key(name@) && v@ == self@[name@],
                None => !self@.contains_key(name@),
            },
    {
        proof {
            use_type_invariant(self);
            lemma_entries_map(self.entries@);
        }
        match self.position(name) {
            Some(i) => Some(&self.entries[i].1),
            None => None,
        }
    }
}

/// A parameter that shapes the network.
#[derive(Clone, Copy, PartialEq, Eq, Structural, Debug)]
pub enum Setting {
    /// The latency, in milliseconds.
    Latency,
    /// The bandwidth, in bits per second.
    Bandwidth,
}

/// Why a network cannot be shaped.
#[derive(Clone, Copy, PartialEq, Eq, Structural, Debug)]
pub enum SettingError {
    /// The run was started without this parameter.
    Missing(Setting),
    /// The parameter is no number that fits.
    NotANumber(Setting, NumberError),
    /// The latency in nanoseconds does not fit.
    LatencyTooLong,
}

/// What becomes of the packets that come in.
#[derive(Clone, Copy, PartialEq, Eq, Structural, Debug)]
pub enum Filter {
    Accept,
    Reject,
    Drop,
}

/// Whether the networks beyond the data network can be reached.
#[derive(Clone, Copy, PartialEq, Eq, Structural, Debug)]
pub enum RoutingPolicy {
    AllowAll,
    DenyAll,
}

/// What the sidecar is asked to make of the network. Packets are neither lost,
/// corrupted, reordered nor duplicated.
pub struct NetworkSettings {
    /// The network that is meant.
    pub network: String,
    /// The IPv4 network to move to, where the instance is to move.
    pub ipv4: Option<String>,
    /// The IPv6 network to move to, where the instance is to move.
    pub ipv6: Option<String>,
    pub enable: bool,
    /// Egress latency in nanoseconds.
    pub latency: u64,
    /// Egress jitter in nanoseconds.
    pub jitter: u64,
    /// Egress bits per second.
    pub bandwidth: u64,
    pub filter: Filter,
    /// The subnets that the same is said of once more, rule by rule.
    pub rules: Option<Vec<String>>,
    /// The state that is signalled once the network is shaped.
    pub callback_state: String,
    /// How many instances have to signal that state.
    pub callback_target: u64,
    pub routing_policy: RoutingPolicy,
}

/// What network settings say, with texts taken as sequences of characters.
pub struct NetworkShape {
    pub network: Seq<char>,
    pub ipv4: Option<Seq<char>>,
    pub ipv6: Option<Seq<char>>,
    pub enable: bool,
    pub latency: u64,
    pub jitter: u64,
    pub bandwidth: u64,
    pub filter: Filter,
    pub rules: Option<Seq<Seq<char>>>,
    pub callback_state: Seq<char>,
    pub callback_target: u64,
    pub routing_policy: RoutingPolicy,
}

impl View for NetworkSettings {
    type V = NetworkShape;

    open spec fn view(&self) -> NetworkShape {
        NetworkShape {
            network: self.network@,
            ipv4: text_view(self.ipv4),
            ipv6: text_view(self.ipv6),
            enable: self.enable,
            latency: self.latency,
            jitter: self.jitter,
            bandwidth: self.bandwidth,
            filter: self.filter,
            rules: match self.rules {
                Some(subnets) => Some(subnets@.map_values(|subnet: String| subnet@)),
                None => None,
            },
            callback_state: self.callback_state@,
            callback_target: self.callback_target,
            routing_policy: self.routing_policy,
        }
    }
}

/// The data network with a given latency and bandwidth: without jitter, rules
/// or a filter, with the addresses and the routes left alone, and set up once
/// `target` instances have it.
pub open spec fn shape_of(latency: u64, bandwidth: u64, target: u64) -> NetworkShape {
    NetworkShape {
        network: "default"@,
        ipv4: None,
        ipv6: None,
        enable: true,
        latency,
        jitter: 0,
        bandwidth,
        filter: Filter::Accept,
        rules: None,
        callback_state: "network-configured"@,
        callback_target: target,
        routing_policy: RoutingPolicy::AllowAll,
    }
}

/// `testground::network_conf::DEFAULT_DATA_NETWORK`, the constant that names
/// the network between the instances. It is the text `default`.
#[verifier::external_body]
fn default_network() -> (name: String)
    ensures
        name@ == "default"@,
{
    testground::network_conf::DEFAULT_DATA_NETWORK.to_owned()
}

/// The settings that ask for the data network with a given latency and
/// bandwidth, set up once `target` instances have it.
pub fn settings_for(latency: u64, bandwidth: u64, target: u64) -> (settings: NetworkSettings)
    ensures
        settings@ == shape_of(latency, bandwidth, target),
        settings.latency == latency,
        settings.bandwidth == bandwidth,
        settings.callback_target == target,
{
    NetworkSettings {
        network: default_network(),
        ipv4: None,
        ipv6: None,
        enable: true,
        latency,
        jitter: 0,
        bandwidth,
        filter: Filter::Accept,
        rules: None,
        callback_state: "network-configured".to_owned(),
        callback_target: target,
        routing_policy: RoutingPolicy::AllowAll,
    }
}

/// The name of the parameter behind a setting.
pub open spec fn setting_name(setting: Setting) -> Seq<char> {
    match setting {
        Setting::Latency => "latency"@,
        Setting::Bandwidth => "bandwidth"@,
    }
}

/// The number that a setting was given.
pub open spec fn setting_value(
    params: Map<Seq<char>, Seq<char>>,
    setting: Setting,
) -> Result<u64, SettingError> {
    if !params.contains_key(setting_name(setting)) {
        Err(SettingError::Missing(setting))
    } else {
        match read_u64(params[setting_name(setting)]) {
            Ok(number) => Ok(number),
            Err(error) => Err(SettingError::NotANumber(setting, error)),
        }
    }
}

/// The network that a run of `instances` instances asks for: the given
/// latency and bandwidth, set up once every instance has it.
pub open spec fn network_shape(
    params: Map<Seq<char>, Seq<char>>,
    instances: u64,
) -> Result<NetworkShape, SettingError> {
    match (
        setting_value(params, Setting::Latency),
        setting_value(params, Setting::Bandwidth),
    ) {
        (Err(error), _) => Err(error),
        (Ok(_), Err(error)) => Err(error),
        (Ok(millis), Ok(bandwidth)) => if millis * NANOS_PER_MILLI > u64::MAX {
            Err(SettingError::LatencyTooLong)
        } else {
            Ok(shape_of((millis * NANOS_PER_MILLI) as u64, bandwidth, instances))
        },
    }
}

/// Reads the number that a setting was given.
fn read_setting(params: &InstanceParams, setting: Setting) -> (value: Result<u64, SettingError>)
    ensures
        value == setting_value(params@, setting),
{
    let name: String = match setting {
        Setting::Latency => "latency".to_owned(),
        Setting::Bandwidth => "bandwidth".to_owned(),
    };
    match params.get(&name) {
        None => Err(SettingError::Missing(setting)),
        Some(text) => match parse_u64(text.as_str()) {
            Ok(number) => Ok(number),
            Err(error) => Err(SettingError::NotANumber(setting, error)),
        },
    }
}

/// The network that a run with these parameters asks for.
pub fn network_settings(params: &InstanceParams, instances: u64) -> (settings: Result<
    NetworkSettings,
    SettingError,
>)
    ensures
        match network_shape(params@, instances) {
            Ok(shape) => settings matches Ok(s) && s@ == shape,
            Err(error) => settings matches Err(e) && e == error,
        },
{
    let millis: u64 = match read_setting(params, Setting::Latency) {
        Ok(number) => number,
        Err(error) => {
            return Err(error);
        },
    };
    let bandwidth: u64 = match read_setting(params, Setting::Bandwidth) {
        Ok(number) => number,
        Err(error) => {
            return Err(error);
        },
    };
    let nanos: u128 = millis as u128 * NANOS_PER_MILLI;
    if nanos > u64::MAX as u128 {
        return Err(SettingError::LatencyTooLong);
    }
    Ok(settings_for(nanos as u64, bandwidth, instances))
}

/// A run that is given its latency and bandwidth in decimal gets exactly
/// those, the latency counted in nanoseconds.
pub proof fn law_given_shape_is_asked_for(
    params: Map<Seq<char>, Seq<char>>,
    instances: u64,
    millis: u64,
    bandwidth: u64,
)
    requires
        params.contains_pair("latency"@, decimal(millis as nat)),
        params.contains_pair("bandwidth"@, decimal(bandwidth as nat)),
        millis * NANOS_PER_MILLI <= u64::MAX,
    ensures
        network_shape(params, instances) == Ok::<NetworkShape, SettingError>(
            shape_of((millis * NANOS_PER_MILLI) as u64, bandwidth, instances),
        ),
        network_shape(params, instances) matches Ok(shape) && {
            &&& shape.latency == millis * 1_000_000
            &&& shape.bandwidth == bandwidth
            &&& shape.jitter == 0
            &&& shape.callback_target == instances
        },
{
    law_decimal_reads_back(millis);
    law_decimal_reads_back(bandwidth);
}

/// Settings say what their fields say.
pub proof fn law_settings_say_their_fields(settings: NetworkSettings)
    ensures
        settings@.network == settings.network@,
        settings@.ipv4 is Some == settings.ipv4 is Some,
        settings@.ipv6 is Some == settings.ipv6 is Some,
        settings@.rules is Some == settings.rules is Some,
        settings.ipv4 matches Some(text) ==> settings@.ipv4 == Some(text@),
        settings.ipv6 matches Some(text) ==> settings@.ipv6 == Some(text@),
        settings@.enable == settings.enable,
        settings@.latency == settings.latency,
        settings@.jitter == settings.jitter,
        settings@.bandwidth == settings.bandwidth,
        settings@.filter == settings.filter,
        settings@.callback_state == settings.callback_state@,
        settings@.callback_target == settings.callback_target,
        settings@.routing_policy == settings.routing_policy,
{
}

/// Whatever network a run asks for, it has the latency and the bandwidth that
/// were given as numbers, the latency a million times over, and nothing else
/// is done to it. It is set up once as many instances have it as there are.
pub proof fn law_network_is_as_given(params: Map<Seq<char>, Seq<char>>, instances: u64)
    ensures
        network_shape(params, instances) matches Ok(shape) ==> {
            &&& params.contains_key("latency"@)
            &&& params.contains_key("bandwidth"@)
            &&& read_u64(params["latency"@]) matches Ok(millis) && shape.latency == millis
                * 1_000_000
            &&& read_u64(params["bandwidth"@]) == Ok::<u64, NumberError>(shape.bandwidth)
            &&& shape.jitter == 0
            &&& shape.enable
            &&& shape.network == "default"@
            &&& shape.ipv4 is None
            &&& shape.ipv6 is None
            &&& shape.rules is None
            &&& shape.filter is Accept
            &&& shape.routing_policy is AllowAll
            &&& shape.callback_target == instances
            &&& shape.callback_state == "network-configured"@
        },
{
}

/// A network is asked for wherever both numbers are given and the latency in
/// nanoseconds fits; otherwise the first thing that is wrong is named, the
/// latency before the bandwidth, and both before the size of the latency.
pub proof fn law_network_is_asked_for_or_refused(
    params: Map<Seq<char>, Seq<char>>,
    instances: u64,
)
    ensures
        ({
            let shape = network_shape(params, instances);
            let latency = read_u64(params["latency"@]);
            let bandwidth = read_u64(params["bandwidth"@]);
            let has_latency = params.contains_key("latency"@);
            let has_bandwidth = params.contains_key("bandwidth"@);
            &&& !has_latency ==> shape == Err::<NetworkShape, SettingError>(
                SettingError::Missing(Setting::Latency),
            )
            &&& has_latency && latency is Err ==> shape == Err::<NetworkShape, SettingError>(
                SettingError::NotANumber(Setting::Latency, latency->Err_0),
            )
            &&& has_latency && latency is Ok && !has_bandwidth ==> shape == Err::<
                NetworkShape,
                SettingError,
            >(SettingError::Missing(Setting::Bandwidth))
            &&& has_latency && latency is Ok && has_bandwidth && bandwidth is Err ==> shape == Err::<
                NetworkShape,
                SettingError,
            >(SettingError::NotANumber(Setting::Bandwidth, bandwidth->Err_0))
            &&& has_latency && latency is Ok && has_bandwidth && bandwidth is Ok ==> {
                &&& latency->Ok_0 * 1_000_000 <= u64::MAX ==> shape is Ok
                &&& latency->Ok_0 * 1_000_000 > u64::MAX ==> shape == Err::<
                    NetworkShape,
                    SettingError,
                >(SettingError::LatencyTooLong)
            }
        }),
{
}

} // verus!
