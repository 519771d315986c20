//! Finding the controller without a configured address: what the controller
//! advertises, and how a sensor reads the answers to its query.
//!
//! The packets are somebody else's business. The controller's side gets a
//! record to publish and the rhythm to publish it in; the sensor's side gets
//! the records of each answer, already decoded, and decides what they give.

use vstd::prelude::*;
use vstd::string::StringExecFns;

verus! {

/// The port on which the controller takes sensor connections.
pub const CONTROLLER_PORT: u16 = 3000;

/// Seconds from one registration of the advertisement to the next.
pub const ADVERTISE_PERIOD_SECS: u64 = 5;

/// Seconds for which a registered advertisement may be taken as valid by
/// those who heard it.
pub const ADVERTISEMENT_TTL_SECS: u32 = 60;

/// Seconds a sensor waits after a query that found no controller.
pub const RETRY_BACKOFF_SECS: u64 = 5;

/// Seconds between two queries while a sensor listens for answers.
pub const QUERY_INTERVAL_SECS: u64 = 60;

/// A service as it is advertised on the local network.
#[derive(Debug, PartialEq, Eq)]
pub struct Advertisement {
    pub service_type: String,
    pub instance_name: String,
    pub port: u16,
    pub attributes: Vec<String>,
    /// Seconds for which listeners may hold the advertisement valid.
    pub ttl_secs: u32,
}

/// What the controller advertises: its service type, its name, the port for
/// sensors, and the path of the live stream.
pub fn controller_advertisement() -> (ad: Advertisement)
    ensures
        ad.service_type@ == "_controller-server._tcp"@,
        ad.instance_name@ == "ControllerServer"@,
        ad.port == CONTROLLER_PORT,
        ad.attributes@.len() == 1,
        ad.attributes@[0]@ == "path=/"@,
        ad.ttl_secs == ADVERTISEMENT_TTL_SECS,
{
    let mut attributes: Vec<String> = Vec::new();
    attributes.push(String::from_str("path=/"));
    Advertisement {
        service_type: String::from_str("_controller-server._tcp"),
        instance_name: String::from_str("ControllerServer"),
        port: CONTROLLER_PORT,
        attributes,
        ttl_secs: ADVERTISEMENT_TTL_SECS,
    }
}

/// The name under which a sensor asks for a service type on the local
/// network.
pub fn local_service_name(service_type: &str) -> (name: String)
    ensures
        name@ == service_type@ + ".local"@,
{
    let mut name = String::from_str(service_type);
    name.append(".local");
    name
}

/// What the advertiser's loop has just seen.
#[derive(Clone, Copy, Debug, PartialEq, Eq, Structural)]
pub enum AdvertiserEvent {
    /// The loop starts.
    Started,
    /// The advertisement is registered.
    Registered,
    /// Registering failed.
    RegistrationFailed,
    /// The period since the last attempt is over.
    PeriodElapsed,
}

/// What the advertiser's loop does next.
#[derive(Clone, Copy, Debug, PartialEq, Eq, Structural)]
pub enum AdvertiserAction {
    /// Register the advertisement, in place of the one before.
    Register,
    /// Keep what is registered and wait this many seconds.
    Wait(u64),
}

/// The advertiser's rule: register at the start and again after every period,
/// whether the last attempt succeeded or not. A failure is never the end.
pub open spec fn advertiser_rule(event: AdvertiserEvent) -> AdvertiserAction {
    match event {
        AdvertiserEvent::Started | AdvertiserEvent::PeriodElapsed => AdvertiserAction::Register,
        AdvertiserEvent::Registered | AdvertiserEvent::RegistrationFailed => AdvertiserAction::Wait(
            ADVERTISE_PERIOD_SECS,
        ),
    }
}

/// Decides the advertiser's next move. A wait is always shorter than the time
/// for which the advertisement is valid, so the next registration comes before
/// the last one lapses.
pub fn advertiser_step(event: AdvertiserEvent) -> (action: AdvertiserAction)
    ensures
        action == advertiser_rule(event),
        action matches AdvertiserAction::Wait(seconds) ==> seconds < ADVERTISEMENT_TTL_SECS,
{
    match event {
        AdvertiserEvent::Started => AdvertiserAction::Register,
        AdvertiserEvent::PeriodElapsed => AdvertiserAction::Register,
        AdvertiserEvent::Registered => AdvertiserAction::Wait(ADVERTISE_PERIOD_SECS),
        AdvertiserEvent::RegistrationFailed => AdvertiserAction::Wait(ADVERTISE_PERIOD_SECS),
    }
}

/// A network address.
#[derive(Clone, Copy, Debug, PartialEq, Eq, Structural)]
pub enum IpAddress {
    /// An IPv4 address, its four bytes as one number, first byte highest.
    V4(u32),
    /// An IPv6 address, its sixteen bytes as one number, first byte highest.
    V6(u128),
}

/// Where to connect.
#[derive(Clone, Copy, Debug, PartialEq, Eq, Structural)]
pub struct Endpoint {
    pub address: IpAddress,
    pub port: u16,
}

/// One record of an answer, as far as a sensor reads it.
#[derive(Clone, Copy, Debug, PartialEq, Eq, Structural)]
pub enum RecordKind {
    /// An IPv4 address record.
    A(u32),
    /// An IPv6 address record.
    Aaaa(u128),
    /// A service record, of which the port is read.
    Srv { port: u16 },
    /// Any other record.
    Other,
}

/// The address of a record, if it is an address record.
pub open spec fn address_of(record: RecordKind) -> Option<IpAddress> {
    match record {
        RecordKind::A(v4) => Some(IpAddress::V4(v4)),
        RecordKind::Aaaa(v6) => Some(IpAddress::V6(v6)),
        _ => None,
    }
}

/// The first address among the records, IPv4 or IPv6 as they come.
pub open spec fn first_address(records: Seq<RecordKind>) -> Option<IpAddress>
    decreases records.len(),
{
    if records.len() == 0 {
        None
    } else if address_of(records[0]) is Some {
        address_of(records[0])
    } else {
        first_address(records.drop_first())
    }
}

/// The port of the first service record among the records.
pub open spec fn first_port(records: Seq<RecordKind>) -> Option<u16>
    decreases records.len(),
{
    if records.len() == 0 {
        None
    } else if records[0] is Srv {
        Some(records[0]->port)
    } else {
        first_port(records.drop_first())
    }
}

/// Where an answer says the service is: its first address with the port of
/// its first service record. An answer that lacks either gives nothing.
pub open spec fn endpoint_of(records: Seq<RecordKind>) -> Option<Endpoint> {
    match (first_address(records), first_port(records)) {
        (Some(address), Some(port)) => Some(Endpoint { address, port }),
        _ => None,
    }
}

/// Reads one answer.
pub fn endpoint_in(records: &Vec<RecordKind>) -> (found: Option<Endpoint>)
    ensures
        found == endpoint_of(records@),
{
    let mut address: Option<IpAddress> = None;
    let mut port: Option<u16> = None;
    let mut i: usize = records.len();
    assert(records@.subrange(i as int, records.len() as int) =~= Seq::<RecordKind>::empty());
    while i > 0
        invariant
            i <= records.len(),
            address == first_address(records@.subrange(i as int, records.len() as int)),
            port == first_port(records@.subrange(i as int, records.len() as int)),
        decreases i,
    {
        i = i - 1;
        assert(records@.subrange(i as int, records.len() as int).drop_first()
            =~= records@.subrange(i + 1, records.len() as int));
        match records[i] {
            RecordKind::A(v4) => {
                address = Some(IpAddress::V4(v4));
            },
            RecordKind::Aaaa(v6) => {
                address = Some(IpAddress::V6(v6));
            },
            RecordKind::Srv { port: p } => {
                port = Some(p);
            },
            RecordKind::Other => {},
        }
    }
    assert(records@.subrange(0, records.len() as int) =~= records@);
    match (address, port) {
        (Some(address), Some(port)) => Some(Endpoint { address, port }),
        _ => None,
    }
}

/// How a query ended.
#[derive(Clone, Copy, Debug, PartialEq, Eq, Structural)]
pub enum Resolution {
    /// The controller is here.
    Found(Endpoint),
    /// No answer gave an address before the time was up.
    NotFound,
}

/// What a run of answers gives: the endpoint of the first answer that has
/// one. Later answers are not looked at, whatever they say.
pub open spec fn resolution_of(answers: Seq<Seq<RecordKind>>) -> Resolution
    decreases answers.len(),
{
    if answers.len() == 0 {
        Resolution::NotFound
    } else {
        match endpoint_of(answers[0]) {
            Some(endpoint) => Resolution::Found(endpoint),
            None => resolution_of(answers.drop_first()),
        }
    }
}

/// The records of each answer of a run.
pub open spec fn answer_views(answers: Seq<Vec<RecordKind>>) -> Seq<Seq<RecordKind>> {
    answers.map_values(|a: Vec<RecordKind>| a@)
}

/// Resolves from the answers that came before the time was up, in the order
/// in which they came: first seen wins.
pub fn resolve(answers: &Vec<Vec<RecordKind>>) -> (r: Resolution)
    ensures
        r == resolution_of(answer_views(answers@)),
{
    let ghost all = answer_views(answers@);
    let mut i: usize = 0;
    assert(all.subrange(0, all.len() as int) =~= all);
    while i < answers.len()
        invariant
            i <= answers.len(),
            all == answer_views(answers@),
            resolution_of(all) == resolution_of(all.subrange(i as int, all.len() as int)),
        decreases answers.len() - i,
    {
        let ghost rest = all.subrange(i as int, all.len() as int);
        assert(rest[0] == answers@[i as int]@);
        assert(rest.drop_first() =~= all.subrange(i + 1, all.len() as int));
        match endpoint_in(&answers[i]) {
            Some(endpoint) => {
                return Resolution::Found(endpoint);
            },
            None => {},
        }
        i = i + 1;
    }
    assert(all.subrange(i as int, all.len() as int) =~= Seq::<Seq<RecordKind>>::empty());
    Resolution::NotFound
}

} // verus!
