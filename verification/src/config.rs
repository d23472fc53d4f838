//! Service configuration: listening address, log retention, lights and their commands.

use crate::text::{copy_texts, texts};
use vstd::hash_map::StringHashMap;
use vstd::prelude::*;

verus! {

/// Where the HTTP service listens.
#[derive(Debug, Clone)]
pub struct ServerConfig {
    pub listen_addr: String,
}

/// A light: its socket address and the request addresses that may control it.
#[derive(Debug, PartialEq, Eq)]
pub struct Light {
    pub address: String,
    pub request_ips: Vec<String>,
}

/// The configured lights and their command set.
#[derive(Debug, Clone)]
pub struct LightConfig {
    pub lights: Vec<Light>,
    pub commands: LightCommandConfig,
}

/// The commands a light understands, how they are combined and how long I/O may take.
#[derive(Debug, Clone)]
pub struct LightCommandConfig {
    pub basic: BasicLightCommandConfig,
    pub composite: CompositeLightCommandConfig,
    pub timing: LightTimingConfig,
}

/// The hexadecimal text of the four basic commands.
#[derive(Debug, Clone)]
pub struct BasicLightCommandConfig {
    pub green_light_off: String,
    pub green_light_on: String,
    pub red_light_on: String,
    pub red_light_off: String,
}

/// What is sent for each status, by the names of the basic commands.
#[derive(Debug, Clone)]
pub struct CompositeLightCommandConfig {
    pub red: Vec<CompositeItemConfig>,
    pub green: Vec<CompositeItemConfig>,
    pub red_flash: Vec<CompositeItemConfig>,
}

/// One item of a composite command.
#[derive(Debug, Clone)]
pub enum CompositeItemConfig {
    Command { command: String },
    Repeat { repeat: usize, steps: Vec<CompositeStepConfig> },
}

/// One step of a repeated block, with the pause after it.
#[derive(Debug, Clone)]
pub struct CompositeStepConfig {
    pub command: String,
    pub delay_ms: Option<u64>,
}

/// Time limits, in milliseconds.
#[derive(Debug, Clone)]
pub struct LightTimingConfig {
    pub io_timeout_ms: u64,
}

/// The whole configuration.
#[derive(Debug)]
pub struct AppConfig {
    pub server: ServerConfig,
    pub logging: LoggingConfig,
    pub light: LightConfig,
}

/// How long local log files are kept and how often they are swept.
#[derive(Debug, Clone)]
pub struct LoggingConfig {
    pub retained_days: u64,
    pub cleanup_interval_hours: u64,
}

impl Default for ServerConfig {
    fn default() -> (config: Self)
        ensures
            config.listen_addr@ == "0.0.0.0:3000"@,
    {
        ServerConfig { listen_addr: default_listen_addr() }
    }
}

/// The address listened on where none is configured.
pub fn default_listen_addr() -> (addr: String)
    ensures
        addr@ == "0.0.0.0:3000"@,
{
    "0.0.0.0:3000".to_string()
}

impl Default for LoggingConfig {
    fn default() -> (config: Self)
        ensures
            config.retained_days == 30,
            config.cleanup_interval_hours == 24,
    {
        LoggingConfig {
            retained_days: default_log_retained_days(),
            cleanup_interval_hours: default_log_cleanup_interval_hours(),
        }
    }
}

/// The days a log file is kept where none are configured.
pub fn default_log_retained_days() -> (days: u64)
    ensures
        days == 30,
{
    30
}

/// The hours between two sweeps where none are configured.
pub fn default_log_cleanup_interval_hours() -> (hours: u64)
    ensures
        hours == 24,
{
    24
}

/// A light as plain text.
#[verifier::ext_equal]
pub struct LightView {
    pub address: Seq<char>,
    pub request_ips: Seq<Seq<char>>,
}

impl View for Light {
    type V = LightView;

    open spec fn view(&self) -> LightView {
        LightView { address: self.address@, request_ips: texts(self.request_ips@) }
    }
}

impl Clone for Light {
    fn clone(&self) -> (copy: Self)
        ensures
            copy@ == self@,
    {
        Light { address: self.address.clone(), request_ips: copy_texts(&self.request_ips) }
    }
}

/// The lights as plain text, in configured order.
pub open spec fn light_views(lights: Seq<Light>) -> Seq<LightView> {
    lights.map_values(|light: Light| light@)
}

/// `address`, once for each time that `ip` occurs in `ips`.
pub open spec fn mentions(address: Seq<char>, ips: Seq<Seq<char>>, ip: Seq<char>) -> Seq<Seq<char>>
    decreases ips.len(),
{
    if ips.len() == 0 {
        Seq::empty()
    } else if ips.last() == ip {
        mentions(address, ips.drop_last(), ip).push(address)
    } else {
        mentions(address, ips.drop_last(), ip)
    }
}

/// The addresses of the lights that list `ip`, in configured order.
pub open spec fn addresses_for(lights: Seq<LightView>, ip: Seq<char>) -> Seq<Seq<char>>
    decreases lights.len(),
{
    if lights.len() == 0 {
        Seq::empty()
    } else {
        addresses_for(lights.drop_last(), ip) + mentions(
            lights.last().address,
            lights.last().request_ips,
            ip,
        )
    }
}

/// Whether `map` gives, for each request address, exactly the addresses in `wanted`, and has no
/// entry where `wanted` has none.
pub open spec fn maps_to(
    map: Map<Seq<char>, Vec<String>>,
    wanted: spec_fn(Seq<char>) -> Seq<Seq<char>>,
) -> bool {
    forall|ip: Seq<char>| #[trigger]
        map.contains_key(ip) == (wanted(ip).len() > 0) && (map.contains_key(ip) ==> texts(
            map[ip]@,
        ) == wanted(ip))
}

impl LightConfig {
    /// The addresses of the lights that each request address may control, in configured order.
    pub fn request_ip_map(&self) -> (map: StringHashMap<Vec<String>>)
        ensures
            maps_to(map@, |ip: Seq<char>| addresses_for(light_views(self.lights@), ip)),
    {
        let mut map: StringHashMap<Vec<String>> = StringHashMap::new();
        let ghost views = light_views(self.lights@);
        let mut i: usize = 0;
        while i < self.lights.len()
            invariant
                i <= self.lights.len(),
                views == light_views(self.lights@),
                maps_to(map@, |ip: Seq<char>| addresses_for(views.take(i as int), ip)),
            decreases self.lights.len() - i,
        {
            let light = &self.lights[i];
            let ghost before = views.take(i as int);
            let ghost ips = light@.request_ips;
            assert(ips.take(0) =~= Seq::<Seq<char>>::empty());
            let mut j: usize = 0;
            while j < light.request_ips.len()
                invariant
                    j <= light.request_ips.len(),
                    ips == light@.request_ips,
                    maps_to(
                        map@,
                        |ip: Seq<char>|
                            addresses_for(before, ip) + mentions(
                                light@.address,
                                ips.take(j as int),
                                ip,
                            ),
                    ),
                decreases light.request_ips.len() - j,
            {
                let request_ip = &light.request_ips[j];
                let ghost old_map = map@;
                let mut addresses: Vec<String> = match map.get(request_ip.as_str()) {
                    Some(found) => copy_texts(found),
                    None => Vec::new(),
                };
                let ghost known = addresses@;
                addresses.push(light.address.clone());
                let ghost extended = addresses@;
                map.insert(request_ip.clone(), addresses);
                proof {
                    let next = ips.take(j + 1);
                    assert(next.drop_last() =~= ips.take(j as int));
                    assert(next.last() == request_ip@);
                    assert(texts(known) =~= addresses_for(before, request_ip@) + mentions(
                        light@.address,
                        ips.take(j as int),
                        request_ip@,
                    ));
                    assert(texts(extended) =~= texts(known).push(light@.address));
                    assert forall|ip: Seq<char>| #[trigger] map@.contains_key(ip) == ((
                    addresses_for(before, ip) + mentions(light@.address, next, ip)).len() > 0) && (
                    map@.contains_key(ip) ==> texts(map@[ip]@) == addresses_for(before, ip)
                        + mentions(light@.address, next, ip)) by {
                        assert(old_map.contains_key(ip) == old_map.contains_key(ip));
                        if ip == request_ip@ {
                            assert(texts(map@[ip]@) =~= addresses_for(before, ip) + mentions(
                                light@.address,
                                next,
                                ip,
                            ));
                        }
                    }
                }
                j += 1;
            }
            proof {
                let next = views.take(i + 1);
                assert(next.drop_last() =~= before);
                assert(next.last() == light@);
                assert(ips.take(ips.len() as int) =~= ips);
                assert forall|ip: Seq<char>| #[trigger] map@.contains_key(ip) == (addresses_for(
                    next,
                    ip,
                ).len() > 0) && (map@.contains_key(ip) ==> texts(map@[ip]@) == addresses_for(
                    next,
                    ip,
                )) by {}
            }
            i += 1;
        }
        assert(views.take(views.len() as int) =~= views);
        map
    }
}

/// Whether a light lists a request address.
pub open spec fn lists(light: LightView, ip: Seq<char>) -> bool {
    light.request_ips.contains(ip)
}

proof fn lemma_mentions(address: Seq<char>, ips: Seq<Seq<char>>, ip: Seq<char>)
    ensures
        (mentions(address, ips, ip).len() > 0) == ips.contains(ip),
        forall|i: int|
            0 <= i < mentions(address, ips, ip).len() ==> #[trigger] mentions(address, ips, ip)[i]
                == address,
    decreases ips.len(),
{
    if ips.len() > 0 {
        lemma_mentions(address, ips.drop_last(), ip);
        let init = ips.drop_last();
        assert(ips[ips.len() - 1] == ips.last());
        if init.contains(ip) {
            let k = choose|k: int| 0 <= k < init.len() && init[k] == ip;
            assert(ips[k] == ip);
        }
        if ips.contains(ip) && ips.last() != ip {
            let k = choose|k: int| 0 <= k < ips.len() && ips[k] == ip;
            assert(init[k] == ip);
        }
    }
}

/// A request address maps to the addresses of the lights that list it, and to no others.
pub proof fn law_maps_to_listing_lights(lights: Seq<LightView>, ip: Seq<char>, address: Seq<char>)
    ensures
        addresses_for(lights, ip).contains(address) <==> exists|i: int|
            0 <= i < lights.len() && #[trigger] lists(lights[i], ip) && lights[i].address
                == address,
    decreases lights.len(),
{
    if lights.len() > 0 {
        let init = lights.drop_last();
        let last = lights.last();
        let before = addresses_for(init, ip);
        let added = mentions(last.address, last.request_ips, ip);
        law_maps_to_listing_lights(init, ip, address);
        lemma_mentions(last.address, last.request_ips, ip);
        let all = addresses_for(lights, ip);
        assert(all == before + added);
        if all.contains(address) {
            let k = choose|k: int| 0 <= k < all.len() && all[k] == address;
            if k < before.len() {
                assert(before[k] == address);
                let i = choose|i: int|
                    0 <= i < init.len() && #[trigger] lists(init[i], ip) && init[i].address
                        == address;
                assert(lists(lights[i], ip));
            } else {
                assert(added[k - before.len()] == address);
                assert(lists(lights[lights.len() - 1], ip));
            }
        }
        if exists|i: int|
            0 <= i < lights.len() && #[trigger] lists(lights[i], ip) && lights[i].address
                == address {
            let i = choose|i: int|
                0 <= i < lights.len() && #[trigger] lists(lights[i], ip) && lights[i].address
                    == address;
            if i < init.len() {
                assert(lists(init[i], ip));
                let k = choose|k: int| 0 <= k < before.len() && before[k] == address;
                assert(all[k] == address);
            } else {
                assert(added[0] == address);
                assert(all[before.len() as int] == address);
            }
        }
    }
}

/// The first address that a request address maps to is that of the first light that lists it.
pub proof fn law_first_listing_light_comes_first(lights: Seq<LightView>, ip: Seq<char>, i: int)
    requires
        0 <= i < lights.len(),
        lists(lights[i], ip),
        forall|j: int| 0 <= j < i ==> !#[trigger] lists(lights[j], ip),
    ensures
        addresses_for(lights, ip).len() > 0,
        addresses_for(lights, ip)[0] == lights[i].address,
    decreases lights.len(),
{
    let init = lights.drop_last();
    let last = lights.last();
    lemma_mentions(last.address, last.request_ips, ip);
    if i < init.len() {
        assert forall|j: int| 0 <= j < i implies !#[trigger] lists(init[j], ip) by {
            assert(!lists(lights[j], ip));
        }
        law_first_listing_light_comes_first(init, ip, i);
    } else {
        assert(addresses_for(init, ip).len() == 0) by {
            if addresses_for(init, ip).len() > 0 {
                let address = addresses_for(init, ip)[0];
                assert(addresses_for(init, ip).contains(address));
                law_maps_to_listing_lights(init, ip, address);
                let k = choose|k: int|
                    0 <= k < init.len() && #[trigger] lists(init[k], ip) && init[k].address
                        == address;
                assert(!lists(lights[k], ip));
            }
        }
        let added = mentions(last.address, last.request_ips, ip);
        assert(added[0] == last.address);
    }
}

} // verus!
