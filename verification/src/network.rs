//! Network interfaces: the name, the address and the traffic of each.

use vstd::prelude::*;
use crate::text::{chars_of, contains, has_part};

verus! {

/// The address reported where the machine's own address is unknown.
pub open spec fn unknown_address() -> Seq<char> {
    "0.0.0.0"@
}

/// What the operating system reports of one interface.
#[derive(Debug, PartialEq, Eq)]
pub struct NetworkReading {
    pub name: String,
    /// Bytes sent.
    pub transmitted: u64,
    /// Bytes received.
    pub received: u64,
}

/// An interface as a caller sees it.
#[derive(Debug, PartialEq, Eq)]
pub struct NetworksStaticInfo {
    pub name: String,
    /// The machine's own IPv4 address.
    pub ipv4: String,
    /// Bytes sent.
    pub send: u64,
    /// Bytes received.
    pub recive: u64,
}

/// The interfaces handed to a caller, with their number.
#[derive(Debug, PartialEq, Eq)]
pub struct NetworksStaticInfoArray {
    pub data: Vec<NetworksStaticInfo>,
    pub len: usize,
}

/// What a `NetworkReading` holds.
pub ghost struct NetworkReadingView {
    pub name: Seq<char>,
    pub transmitted: u64,
    pub received: u64,
}

/// What a `NetworksStaticInfo` holds.
pub ghost struct NetworksStaticInfoView {
    pub name: Seq<char>,
    pub ipv4: Seq<char>,
    pub send: u64,
    pub recive: u64,
}

impl View for NetworkReading {
    type V = NetworkReadingView;

    open spec fn view(&self) -> NetworkReadingView {
        NetworkReadingView {
            name: self.name@,
            transmitted: self.transmitted,
            received: self.received,
        }
    }
}

impl View for NetworksStaticInfo {
    type V = NetworksStaticInfoView;

    open spec fn view(&self) -> NetworksStaticInfoView {
        NetworksStaticInfoView {
            name: self.name@,
            ipv4: self.ipv4@,
            send: self.send,
            recive: self.recive,
        }
    }
}

impl Clone for NetworkReading {
    fn clone(&self) -> (copy: Self)
        ensures
            copy == *self,
    {
        NetworkReading {
            name: self.name.clone(),
            transmitted: self.transmitted,
            received: self.received,
        }
    }
}

/// What a list of readings holds.
pub open spec fn readings_of(list: Seq<NetworkReading>) -> Seq<NetworkReadingView> {
    list.map_values(|reading: NetworkReading| reading@)
}

/// What a list of interfaces holds.
pub open spec fn interfaces_of(list: Seq<NetworksStaticInfo>) -> Seq<NetworksStaticInfoView> {
    list.map_values(|info: NetworksStaticInfo| info@)
}

/// The address that every interface is reported with.
pub open spec fn reported_address(local_ip: Option<Seq<char>>) -> Seq<char> {
    match local_ip {
        Some(address) => address,
        None => unknown_address(),
    }
}

/// The interface that a caller sees for a reading.
pub open spec fn networks_static_info(
    reading: NetworkReadingView,
    address: Seq<char>,
) -> NetworksStaticInfoView {
    NetworksStaticInfoView {
        name: reading.name,
        ipv4: address,
        send: reading.transmitted,
        recive: reading.received,
    }
}

/// What an optional address holds.
pub open spec fn address_of(local_ip: Option<String>) -> Option<Seq<char>> {
    match local_ip {
        Some(address) => Some(address@),
        None => None,
    }
}

/// The interfaces as a caller receives them: one for each reading, in the
/// order of the readings, each with the machine's own address, or with
/// `0.0.0.0` where that is unknown.
pub fn get_networks_static_info_array(
    networks: &Vec<NetworkReading>,
    local_ip: Option<String>,
) -> (array: NetworksStaticInfoArray)
    ensures
        array.len == networks@.len(),
        interfaces_of(array.data@) == readings_of(networks@).map_values(
            |reading: NetworkReadingView|
                networks_static_info(reading, reported_address(address_of(local_ip))),
        ),
{
    let address = match local_ip {
        Some(address) => address,
        None => "0.0.0.0".to_owned(),
    };
    let ghost all = readings_of(networks@).map_values(
        |reading: NetworkReadingView| networks_static_info(reading, address@),
    );
    let mut data: Vec<NetworksStaticInfo> = Vec::new();
    let mut i: usize = 0;
    while i < networks.len()
        invariant
            i <= networks@.len(),
            all == readings_of(networks@).map_values(
                |reading: NetworkReadingView| networks_static_info(reading, address@),
            ),
            interfaces_of(data@) == all.subrange(0, i as int),
        decreases networks@.len() - i,
    {
        let info = NetworksStaticInfo {
            name: networks[i].name.clone(),
            ipv4: address.clone(),
            send: networks[i].transmitted,
            recive: networks[i].received,
        };
        let ghost shorter = interfaces_of(data@);
        data.push(info);
        proof {
            assert(all[i as int] == networks_static_info(
                readings_of(networks@)[i as int],
                address@,
            ));
            assert(interfaces_of(data@) =~= shorter.push(info@));
            assert(shorter.push(info@) =~= all.subrange(0, i + 1));
        }
        i = i + 1;
    }
    proof {
        assert(all.subrange(0, all.len() as int) =~= all);
        assert(all =~= readings_of(networks@).map_values(
            |reading: NetworkReadingView|
                networks_static_info(reading, reported_address(address_of(local_ip))),
        ));
    }
    let len = data.len();
    NetworksStaticInfoArray { data, len }
}

/// What a list of patterns holds.
pub open spec fn patterns_of(list: Seq<String>) -> Seq<Seq<char>> {
    list.map_values(|pattern: String| pattern@)
}

/// Whether the name of an interface holds one of the patterns that mark a
/// virtual adapter.
pub open spec fn names_virtual_adapter(name: Seq<char>, patterns: Seq<Seq<char>>) -> bool {
    exists|k: int| 0 <= k < patterns.len() && contains(name, #[trigger] patterns[k])
}

/// Whether a reading is of an adapter that is not virtual.
pub open spec fn is_physical(patterns: Seq<Seq<char>>) -> spec_fn(NetworkReadingView) -> bool {
    |reading: NetworkReadingView| !names_virtual_adapter(reading.name, patterns)
}

/// Whether the name of an interface holds one of the patterns.
pub fn is_virtual_adapter(name: &str, patterns: &Vec<String>) -> (found: bool)
    ensures
        found == names_virtual_adapter(name@, patterns_of(patterns@)),
{
    let chars = chars_of(name);
    let mut k: usize = 0;
    while k < patterns.len()
        invariant
            k <= patterns@.len(),
            chars@ == name@,
            forall|j: int| 0 <= j < k ==> !contains(name@, #[trigger] patterns_of(patterns@)[j]),
        decreases patterns@.len() - k,
    {
        let pattern = chars_of(patterns[k].as_str());
        proof {
            assert(patterns_of(patterns@)[k as int] == patterns@[k as int]@);
        }
        if has_part(chars.as_slice(), pattern.as_slice()) {
            return true;
        }
        k = k + 1;
    }
    false
}

/// The readings of the adapters that are not virtual, in the order of the
/// readings: those whose name holds none of the patterns.
pub fn exclude_virtual_adapters(networks: &Vec<NetworkReading>, patterns: &Vec<String>) -> (kept:
    Vec<NetworkReading>)
    ensures
        readings_of(kept@) == readings_of(networks@).filter(is_physical(patterns_of(patterns@))),
{
    let ghost all = readings_of(networks@);
    let ghost pred = is_physical(patterns_of(patterns@));
    let mut kept: Vec<NetworkReading> = Vec::new();
    let mut i: usize = 0;
    proof {
        assert(readings_of(kept@) =~= Seq::empty());
        assert(all.take(0) =~= Seq::empty());
        reveal(Seq::filter);
    }
    while i < networks.len()
        invariant
            i <= networks@.len(),
            all == readings_of(networks@),
            pred == is_physical(patterns_of(patterns@)),
            readings_of(kept@) == all.take(i as int).filter(pred),
        decreases networks@.len() - i,
    {
        proof {
            assert(all.take(i + 1) =~= all.take(i as int).push(all[i as int]));
            all.take(i as int).lemma_filter_push(all[i as int], pred);
            assert(all[i as int] == networks@[i as int]@);
        }
        if !is_virtual_adapter(networks[i].name.as_str(), patterns) {
            let reading = networks[i].clone();
            let ghost shorter = readings_of(kept@);
            kept.push(reading);
            proof {
                assert(readings_of(kept@) =~= shorter.push(reading@));
            }
        }
        i = i + 1;
    }
    proof {
        assert(all.take(all.len() as int) =~= all);
    }
    kept
}

} // verus!
