//! The flat configuration: named lights, a default port, and a list of address pairs.

use vstd::hash_map::StringHashMap;
use vstd::prelude::*;

verus! {

/// The port of Modbus TCP.
pub const MODBUS_TCP_PORT: u16 = 502;

/// A light by name.
#[derive(Debug, Clone)]
pub struct Light {
    pub name: String,
    pub address: String,
}

/// The light that requests from one address control.
#[derive(Debug, Clone)]
pub struct RequestLightMap {
    pub request_ip: String,
    pub light_ip: String,
}

/// The lights, their port, and who controls which.
#[derive(Debug, Clone)]
pub struct LightConfig {
    pub default_port: u16,
    pub lights: Vec<Light>,
    pub request_light_maps: Vec<RequestLightMap>,
}

/// The whole configuration.
#[derive(Debug)]
pub struct AppConfig {
    pub light: LightConfig,
}

impl View for RequestLightMap {
    type V = (Seq<char>, Seq<char>);

    open spec fn view(&self) -> (Seq<char>, Seq<char>) {
        (self.request_ip@, self.light_ip@)
    }
}

/// The pairs of request address and light address.
pub open spec fn pairs(items: Seq<RequestLightMap>) -> Seq<(Seq<char>, Seq<char>)> {
    items.map_values(|item: RequestLightMap| item@)
}

/// The light address for each request address: where a request address is listed more than once,
/// the last pair counts.
pub open spec fn pair_map(pairs: Seq<(Seq<char>, Seq<char>)>) -> Map<Seq<char>, Seq<char>>
    decreases pairs.len(),
{
    if pairs.len() == 0 {
        Map::empty()
    } else {
        pair_map(pairs.drop_last()).insert(pairs.last().0, pairs.last().1)
    }
}

/// The contents of each value.
pub open spec fn map_texts(map: Map<Seq<char>, String>) -> Map<Seq<char>, Seq<char>> {
    map.map_values(|text: String| text@)
}

fn request_light_map(request_ip: &str, light_ip: &str) -> (item: RequestLightMap)
    ensures
        item@ == (request_ip@, light_ip@),
{
    RequestLightMap { request_ip: request_ip.to_string(), light_ip: light_ip.to_string() }
}

/// The pairs used where none are configured.
pub fn default_request_light_maps() -> (maps: Vec<RequestLightMap>)
    ensures
        pairs(maps@) == seq![
            ("::1"@, "192.168.70.151"@),
            ("192.168.70.166"@, "192.168.70.151"@),
            ("192.168.70.167"@, "192.168.70.153"@),
            ("192.168.70.168"@, "192.168.70.155"@),
            ("192.168.70.169"@, "192.168.70.157"@),
        ],
{
    let mut maps: Vec<RequestLightMap> = Vec::new();
    maps.push(request_light_map("::1", "192.168.70.151"));
    maps.push(request_light_map("192.168.70.166", "192.168.70.151"));
    maps.push(request_light_map("192.168.70.167", "192.168.70.153"));
    maps.push(request_light_map("192.168.70.168", "192.168.70.155"));
    maps.push(request_light_map("192.168.70.169", "192.168.70.157"));
    maps
}

impl LightConfig {
    /// The port of the lights: that of Modbus TCP where none is configured.
    pub fn port(&self) -> (port: u16)
        ensures
            port == (if self.default_port == 0 {
                MODBUS_TCP_PORT
            } else {
                self.default_port
            }),
    {
        if self.default_port == 0 {
            MODBUS_TCP_PORT
        } else {
            self.default_port
        }
    }

    /// The light address for each request address.
    pub fn request_ip_map(&self) -> (map: StringHashMap<String>)
        ensures
            map_texts(map@) == pair_map(pairs(self.request_light_maps@)),
    {
        let mut map: StringHashMap<String> = StringHashMap::new();
        let ghost all = pairs(self.request_light_maps@);
        let mut i: usize = 0;
        assert(all.take(0) =~= Seq::<(Seq<char>, Seq<char>)>::empty());
        assert(map_texts(map@) =~= Map::<Seq<char>, Seq<char>>::empty());
        while i < self.request_light_maps.len()
            invariant
                i <= self.request_light_maps.len(),
                all == pairs(self.request_light_maps@),
                map_texts(map@) == pair_map(all.take(i as int)),
            decreases self.request_light_maps.len() - i,
        {
            let item = &self.request_light_maps[i];
            let ghost before = map_texts(map@);
            map.insert(item.request_ip.clone(), item.light_ip.clone());
            assert(all.take(i + 1).drop_last() =~= all.take(i as int));
            assert(map_texts(map@) =~= before.insert(item.request_ip@, item.light_ip@));
            i += 1;
        }
        assert(all.take(all.len() as int) =~= all);
        map
    }
}

/// A request address maps to the light of the last pair that lists it.
pub proof fn law_last_pair_counts(pairs: Seq<(Seq<char>, Seq<char>)>, i: int)
    requires
        0 <= i < pairs.len(),
        forall|j: int| i < j < pairs.len() ==> (#[trigger] pairs[j]).0 != pairs[i].0,
    ensures
        pair_map(pairs).contains_key(pairs[i].0),
        pair_map(pairs)[pairs[i].0] == pairs[i].1,
    decreases pairs.len(),
{
    if i < pairs.len() - 1 {
        assert(pairs[pairs.len() - 1].0 != pairs[i].0);
        law_last_pair_counts(pairs.drop_last(), i);
    }
}

/// A request address that no pair lists maps to no light.
pub proof fn law_unlisted_address_maps_nowhere(
    pairs: Seq<(Seq<char>, Seq<char>)>,
    request_ip: Seq<char>,
)
    requires
        forall|j: int| 0 <= j < pairs.len() ==> (#[trigger] pairs[j]).0 != request_ip,
    ensures
        !pair_map(pairs).contains_key(request_ip),
    decreases pairs.len(),
{
    if pairs.len() > 0 {
        assert(pairs[pairs.len() - 1].0 != request_ip);
        law_unlisted_address_maps_nowhere(pairs.drop_last(), request_ip);
    }
}

} // verus!
