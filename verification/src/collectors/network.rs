//! Network collector logic.

use vstd::prelude::*;

use crate::json::{as_text, as_u64, field, json_document, parse_json, JsonValue, JsonView};
use crate::table::TextMap;
use crate::text::{trim, trim_str};

verus! {

/// Network collector errors.
#[derive(Debug, Clone, PartialEq)]
pub enum NetworkCollectorError {
    InitError(String),
    CollectionError(String),
}

/// The text of an error, as it is reported.
pub open spec fn network_error_text(e: NetworkCollectorError) -> Seq<char> {
    match e {
        NetworkCollectorError::InitError(m) => "Failed to initialize network collector: "@ + m@,
        NetworkCollectorError::CollectionError(m) => "Failed to collect network metrics: "@ + m@,
    }
}

impl NetworkCollectorError {
    /// The error's message.
    pub fn message(&self) -> (r: String)
        ensures
            r@ == network_error_text(*self),
    {
        let (prefix, m) = match self {
            NetworkCollectorError::InitError(m) => ("Failed to initialize network collector: ", m),
            NetworkCollectorError::CollectionError(m) => ("Failed to collect network metrics: ", m),
        };
        let mut r = String::from_str(prefix);
        r.append(m.as_str());
        r
    }
}

/// How often the interface list (and the link speeds) are refreshed, in ms.
pub const LIST_REFRESH_INTERVAL_MS: u64 = 60_000;

// ---------------------------------------------------------------------------
// Link speeds
// ---------------------------------------------------------------------------

/// The adapters listed by the link-speed query: the elements of an array, a
/// single object, or none.
pub open spec fn adapter_items(doc: JsonView) -> Seq<JsonView> {
    match doc {
        JsonView::Array(items) => items,
        JsonView::Object(m) => seq![JsonView::Object(m)],
        _ => seq![],
    }
}

/// Link speeds by adapter name: entries with a string `Name` and a positive
/// integer `SpeedMbps`; a later adapter of the same name wins.
pub open spec fn speeds_from_items(items: Seq<JsonView>) -> Map<Seq<char>, u64>
    decreases items.len(),
{
    if items.len() == 0 {
        Map::empty()
    } else {
        let prev = speeds_from_items(items.drop_last());
        let v = items.last();
        match (as_text(field(v, "Name"@)), as_u64(field(v, "SpeedMbps"@))) {
            (Some(name), Some(speed)) => if speed > 0 {
                prev.insert(name, speed)
            } else {
                prev
            },
            _ => prev,
        }
    }
}

/// Link speeds from the query's output (`None` when the query did not run or
/// failed): none for blank or malformed output.
pub open spec fn link_speeds_from_output(output: Option<Seq<char>>) -> Map<Seq<char>, u64> {
    match output {
        None => Map::empty(),
        Some(text) => {
            let t = trim(text);
            if t.len() == 0 {
                Map::empty()
            } else {
                match json_document(t) {
                    Ok(doc) => speeds_from_items(adapter_items(doc)),
                    Err(_) => Map::empty(),
                }
            }
        },
    }
}

fn add_speed(speeds: &mut TextMap<u64>, v: &JsonValue)
    requires
        old(speeds).wf(),
    ensures
        final(speeds).wf(),
        final(speeds).map() == match (as_text(field(v@, "Name"@)), as_u64(field(v@, "SpeedMbps"@))) {
            (Some(name), Some(speed)) => if speed > 0 {
                old(speeds).map().insert(name, speed)
            } else {
                old(speeds).map()
            },
            _ => old(speeds).map(),
        },
{
    match (crate::json::field_text(v, "Name"), crate::json::field_u64(v, "SpeedMbps")) {
        (Some(name), Some(speed)) => {
            if speed > 0 {
                speeds.insert(name, speed);
            }
        },
        _ => {},
    }
}

/// Reads link speeds from the output of the PowerShell adapter query.
pub fn parse_link_speeds(output: Option<String>) -> (r: TextMap<u64>)
    ensures
        r.wf(),
        r.map() == link_speeds_from_output(crate::json::opt_view(output)),
{
    let mut speeds: TextMap<u64> = TextMap::new();
    let text = match output {
        Some(t) => t,
        None => return speeds,
    };
    let trimmed = trim_str(text.as_str());
    if trimmed.as_str().is_empty() {
        return speeds;
    }
    let doc = match parse_json(trimmed.as_str()) {
        Ok(d) => d,
        Err(_) => return speeds,
    };
    match &doc {
        JsonValue::Array(items) => {
            let ghost all = items@.map_values(|x: JsonValue| x@);
            assert(all =~= adapter_items(doc@));
            let mut i: usize = 0;
            assert(all.take(0) =~= Seq::<JsonView>::empty());
            while i < items.len()
                invariant
                    i <= items@.len(),
                    all == items@.map_values(|x: JsonValue| x@),
                    speeds.wf(),
                    speeds.map() == speeds_from_items(all.take(i as int)),
                decreases items@.len() - i,
            {
                let ghost t = all.take(i + 1);
                assert(t.drop_last() =~= all.take(i as int));
                assert(t.last() == items@[i as int]@);
                add_speed(&mut speeds, &items[i]);
                i = i + 1;
            }
            assert(all.take(i as int) =~= all);
        },
        JsonValue::Object(_) => {
            let ghost one = adapter_items(doc@);
            assert(one.drop_last() =~= Seq::<JsonView>::empty());
            assert(one.last() == doc@);
            assert(speeds_from_items(one.drop_last()) == Map::<Seq<char>, u64>::empty());
            add_speed(&mut speeds, &doc);
            assert(speeds.map() == speeds_from_items(one));
        },
        _ => {
            assert(adapter_items(doc@) == Seq::<JsonView>::empty());
            assert(speeds_from_items(adapter_items(doc@)) == Map::<Seq<char>, u64>::empty());
        },
    }
    speeds
}

// ---------------------------------------------------------------------------
// Interfaces
// ---------------------------------------------------------------------------

/// Counters of an interface at a moment (a monotonic clock reading in ns).
#[derive(Debug, Clone, Copy, PartialEq, Eq)]
pub struct Measurement {
    pub bytes_sent: u64,
    pub bytes_received: u64,
    pub timestamp_ns: u64,
}

/// Traffic since the previous measurement.
#[derive(Debug, Clone, Copy, PartialEq, Eq)]
pub struct TrafficDelta {
    pub sent: u64,
    pub received: u64,
    pub elapsed_ns: u64,
}

/// An address of an interface, as text.
#[derive(Debug, Clone, PartialEq)]
pub struct AddressText {
    pub is_ipv4: bool,
    pub text: String,
}

/// What is read of an interface.
#[derive(Debug, Clone, PartialEq)]
pub struct InterfaceReading {
    pub name: String,
    pub bytes_sent: u64,
    pub bytes_received: u64,
    /// The MAC address as `Display` prints it.
    pub mac: String,
    /// The interface's addresses, in the order listed.
    pub addresses: Vec<AddressText>,
}

/// What the collector reports of an interface, besides its counters.
#[derive(Debug, Clone, PartialEq)]
pub struct InterfaceObservation {
    pub mac: Option<String>,
    pub ipv4: Option<String>,
    pub ipv6: Option<String>,
    /// "up" or "down"
    pub status: String,
    pub speed_mbps: Option<u64>,
    /// Traffic since the previous collection, when there was one and time passed.
    pub delta: Option<TrafficDelta>,
}

/// A MAC address is reported unless it is empty or all zeros.
pub open spec fn reported_mac(mac: Seq<char>) -> Option<Seq<char>> {
    if mac == "00:00:00:00:00:00"@ || mac.len() == 0 {
        None
    } else {
        Some(mac)
    }
}

/// The first address of a family, in list order.
pub open spec fn first_address(addrs: Seq<AddressText>, ipv4: bool) -> Option<Seq<char>>
    decreases addrs.len(),
{
    if addrs.len() == 0 {
        None
    } else if addrs[0].is_ipv4 == ipv4 {
        Some(addrs[0].text@)
    } else {
        first_address(addrs.drop_first(), ipv4)
    }
}

/// An interface is "up" when it has traffic or an address, else "down".
pub open spec fn interface_status(sent: u64, received: u64, has_address: bool) -> Seq<char> {
    if sent > 0 || received > 0 || has_address {
        "up"@
    } else {
        "down"@
    }
}

/// Traffic since `prev`: counter differences (zero when a counter went back)
/// and the time passed; none without a previous measurement or when no time
/// passed.
pub open spec fn delta_since(prev: Option<Measurement>, sent: u64, received: u64, now_ns: u64) -> Option<TrafficDelta> {
    match prev {
        None => None,
        Some(p) => if now_ns > p.timestamp_ns {
            Some(
                TrafficDelta {
                    sent: (if sent >= p.bytes_sent {
                        sent - p.bytes_sent
                    } else {
                        0
                    }) as u64,
                    received: (if received >= p.bytes_received {
                        received - p.bytes_received
                    } else {
                        0
                    }) as u64,
                    elapsed_ns: (now_ns - p.timestamp_ns) as u64,
                },
            )
        } else {
            None
        },
    }
}

/// The traffic since a previous measurement (see [`delta_since`]).
pub fn traffic_delta(prev: Option<&Measurement>, sent: u64, received: u64, now_ns: u64) -> (r: Option<TrafficDelta>)
    ensures
        r == delta_since(
            match prev {
                Some(p) => Some(*p),
                None => None,
            },
            sent,
            received,
            now_ns,
        ),
{
    match prev {
        None => None,
        Some(p) => if now_ns > p.timestamp_ns {
            Some(
                TrafficDelta {
                    sent: sent.saturating_sub(p.bytes_sent),
                    received: received.saturating_sub(p.bytes_received),
                    elapsed_ns: now_ns - p.timestamp_ns,
                },
            )
        } else {
            None
        },
    }
}

fn first_of_family(addrs: &[AddressText], ipv4: bool) -> (r: Option<String>)
    ensures
        crate::json::opt_view(r) == first_address(addrs@, ipv4),
{
    let mut i: usize = 0;
    assert(addrs@.skip(0) =~= addrs@);
    while i < addrs.len()
        invariant
            i <= addrs@.len(),
            first_address(addrs@, ipv4) == first_address(addrs@.skip(i as int), ipv4),
        decreases addrs@.len() - i,
    {
        assert(addrs@.skip(i as int)[0] == addrs@[i as int]);
        if addrs[i].is_ipv4 == ipv4 {
            return Some(addrs[i].text.clone());
        }
        assert(addrs@.skip(i as int).drop_first() =~= addrs@.skip(i + 1));
        i = i + 1;
    }
    None
}

/// Observes an interface at `now_ns`: reports its MAC, first IPv4 and IPv6
/// addresses, status, link speed and traffic since the previous observation,
/// and records the current counters as the new previous measurement.
pub fn observe_interface(
    history: &mut TextMap<Measurement>,
    speeds: &TextMap<u64>,
    reading: &InterfaceReading,
    now_ns: u64,
) -> (r: InterfaceObservation)
    requires
        old(history).wf(),
        speeds.wf(),
    ensures
        final(history).wf(),
        final(history).map() == old(history).map().insert(
            reading.name@,
            Measurement {
                bytes_sent: reading.bytes_sent,
                bytes_received: reading.bytes_received,
                timestamp_ns: now_ns,
            },
        ),
        crate::json::opt_view(r.mac) == reported_mac(reading.mac@),
        crate::json::opt_view(r.ipv4) == first_address(reading.addresses@, true),
        crate::json::opt_view(r.ipv6) == first_address(reading.addresses@, false),
        r.status@ == interface_status(
            reading.bytes_sent,
            reading.bytes_received,
            r.ipv4 is Some || r.ipv6 is Some,
        ),
        r.speed_mbps == (if speeds.map().dom().contains(reading.name@) {
            Some(speeds.map()[reading.name@])
        } else {
            None
        }),
        r.delta == delta_since(
            if old(history).map().dom().contains(reading.name@) {
                Some(old(history).map()[reading.name@])
            } else {
                None
            },
            reading.bytes_sent,
            reading.bytes_received,
            now_ns,
        ),
{
    let delta = traffic_delta(
        history.get(reading.name.as_str()),
        reading.bytes_sent,
        reading.bytes_received,
        now_ns,
    );
    history.insert(
        reading.name.clone(),
        Measurement {
            bytes_sent: reading.bytes_sent,
            bytes_received: reading.bytes_received,
            timestamp_ns: now_ns,
        },
    );
    let zero = String::from_str("00:00:00:00:00:00");
    let mac = if reading.mac == zero || reading.mac.as_str().is_empty() {
        None
    } else {
        Some(reading.mac.clone())
    };
    let ipv4 = first_of_family(reading.addresses.as_slice(), true);
    let ipv6 = first_of_family(reading.addresses.as_slice(), false);
    let status = if reading.bytes_sent > 0 || reading.bytes_received > 0 || ipv4.is_some()
        || ipv6.is_some() {
        String::from_str("up")
    } else {
        String::from_str("down")
    };
    let speed_mbps = match speeds.get(reading.name.as_str()) {
        Some(s) => Some(*s),
        None => None,
    };
    InterfaceObservation { mac, ipv4, ipv6, status, speed_mbps, delta }
}

/// The traffic since a previous measurement counts each direction against
/// its own previous counter: added to the previous counter it gives the new
/// one (0 when the counter went back, as after a reset), and the elapsed time
/// added to the previous time gives the new time. There is a delta exactly
/// when there is a previous measurement and time has moved on.
pub proof fn lemma_traffic_delta_counts(prev: Option<Measurement>, sent: u64, received: u64, now_ns: u64)
    ensures
        delta_since(prev, sent, received, now_ns) is Some <==> (prev matches Some(p)
            && now_ns > p.timestamp_ns),
        delta_since(prev, sent, received, now_ns) matches Some(d) ==> {
            let p = prev->0;
            &&& (sent >= p.bytes_sent ==> p.bytes_sent + d.sent == sent)
            &&& (sent < p.bytes_sent ==> d.sent == 0)
            &&& (received >= p.bytes_received ==> p.bytes_received + d.received == received)
            &&& (received < p.bytes_received ==> d.received == 0)
            &&& p.timestamp_ns + d.elapsed_ns == now_ns
        },
{
}

/// The address reported for a family is the first address of that family in
/// the list, and there is none exactly when the list holds no address of
/// that family.
pub proof fn lemma_first_address(addrs: Seq<AddressText>, ipv4: bool)
    ensures
        first_address(addrs, ipv4) is None <==> forall|i: int|
            0 <= i < addrs.len() ==> (#[trigger] addrs[i]).is_ipv4 != ipv4,
        first_address(addrs, ipv4) matches Some(t) ==> exists|i: int|
            0 <= i < addrs.len() && (#[trigger] addrs[i]).is_ipv4 == ipv4 && addrs[i].text@ == t
                && forall|j: int| 0 <= j < i ==> (#[trigger] addrs[j]).is_ipv4 != ipv4,
    decreases addrs.len(),
{
    if addrs.len() > 0 {
        let rest = addrs.drop_first();
        lemma_first_address(rest, ipv4);
        if addrs[0].is_ipv4 == ipv4 {
            assert(addrs[0].is_ipv4 == ipv4 && addrs[0].text@ == first_address(addrs, ipv4)->0);
        } else {
            assert forall|i: int| 0 <= i < rest.len() implies rest[i] == addrs[i + 1] by {}
            if first_address(rest, ipv4) is None {
                assert forall|i: int| 0 <= i < addrs.len() implies (#[trigger] addrs[i]).is_ipv4
                    != ipv4 by {
                    if i > 0 {
                        assert(addrs[i] == rest[i - 1]);
                    }
                }
            } else {
                let k = choose|k: int|
                    0 <= k < rest.len() && (#[trigger] rest[k]).is_ipv4 == ipv4 && rest[k].text@
                        == first_address(rest, ipv4)->0 && forall|j: int|
                        0 <= j < k ==> (#[trigger] rest[j]).is_ipv4 != ipv4;
                assert(addrs[k + 1] == rest[k]);
                assert forall|j: int| 0 <= j < k + 1 implies (#[trigger] addrs[j]).is_ipv4 != ipv4 by {
                    if j > 0 {
                        assert(addrs[j] == rest[j - 1]);
                    }
                }
                assert(addrs[0].is_ipv4 != ipv4);
            }
        }
    }
}

/// An interface is reported up exactly when it has sent or received traffic
/// or has an address, and its MAC address is left out exactly when it is
/// empty or all zeros (otherwise it is reported as read).
pub proof fn lemma_interface_status_and_mac(sent: u64, received: u64, has_address: bool, mac: Seq<char>)
    ensures
        (interface_status(sent, received, has_address) == "up"@) <==> (sent > 0 || received > 0
            || has_address),
        (interface_status(sent, received, has_address) == "down"@) <==> !(sent > 0 || received > 0
            || has_address),
        reported_mac(mac) is None <==> (mac.len() == 0 || mac == "00:00:00:00:00:00"@),
        reported_mac(mac) matches Some(m) ==> m == mac,
{
    reveal_strlit("up");
    reveal_strlit("down");
    assert("up"@.len() != "down"@.len());
}

/// Two observations of an interface relate: the second one's traffic is
/// counted against the counters and time the first one recorded.
pub proof fn lemma_observations_chain(
    history: Map<Seq<char>, Measurement>,
    name: Seq<char>,
    first: Measurement,
    sent: u64,
    received: u64,
    now_ns: u64,
)
    ensures
        ({
            let after = history.insert(name, first);
            &&& after.dom().contains(name)
            &&& delta_since(
                if after.dom().contains(name) {
                    Some(after[name])
                } else {
                    None
                },
                sent,
                received,
                now_ns,
            ) == delta_since(Some(first), sent, received, now_ns)
        }),
{
}

/// Each adapter's link speed comes from its own entry: an entry named `n`
/// with a positive integer `SpeedMbps` records that speed under `n`, over any
/// earlier entry of that name; an entry without a name or a positive speed
/// changes nothing.
pub proof fn lemma_speed_entry(items: Seq<JsonView>, v: JsonView)
    ensures
        (as_text(field(v, "Name"@)) matches Some(n) && as_u64(field(v, "SpeedMbps"@)) matches Some(
            sp,
        ) && sp > 0) ==> speeds_from_items(items.push(v)) == speeds_from_items(items).insert(
            as_text(field(v, "Name"@))->0,
            as_u64(field(v, "SpeedMbps"@))->0,
        ),
        (as_text(field(v, "Name"@)) is None || as_u64(field(v, "SpeedMbps"@)) is None || as_u64(
            field(v, "SpeedMbps"@),
        ) == Some(0u64)) ==> speeds_from_items(items.push(v)) == speeds_from_items(items),
{
    assert(items.push(v).drop_last() =~= items);
}

} // verus!
