//! The configured lights, found by their address or by who may control them.

use crate::config::{
    addresses_for, law_maps_to_listing_lights, light_views, lists, maps_to, Light, LightConfig,
    LightView,
};
use crate::tcp_manager::{Pool, TcpManager};
use crate::text::texts;
use vstd::hash_map::StringHashMap;
use vstd::prelude::*;

verus! {

/// A light that commands are sent to, and the pool of connections to it.
#[derive(Debug)]
pub struct LightRuntime {
    pub address: String,
    pub pool: Pool,
}

/// Whether `runtime` is the one for `address`: its pool connects there, one connection at a time.
pub open spec fn is_runtime_for(runtime: LightRuntime, address: Seq<char>) -> bool {
    &&& runtime.address@ == address
    &&& runtime.pool.manager.addr@ == address
    &&& runtime.pool.max_size == 1
}

impl Clone for LightRuntime {
    fn clone(&self) -> (copy: Self)
        ensures
            copy == *self,
    {
        LightRuntime {
            address: self.address.clone(),
            pool: Pool { manager: self.pool.manager.clone(), max_size: self.pool.max_size },
        }
    }
}

/// The pool of connections to `address`.
pub fn build_light_pool(address: &str) -> (pool: Pool)
    ensures
        pool.manager.addr@ == address@,
        pool.max_size == 1,
{
    Pool { manager: TcpManager { addr: address.to_string() }, max_size: 1 }
}

/// The runtime of a configured light.
pub fn build_light_runtime(light: &Light) -> (runtime: LightRuntime)
    ensures
        is_runtime_for(runtime, light@.address),
{
    LightRuntime { pool: build_light_pool(light.address.as_str()), address: light.address.clone() }
}

/// The runtime a command goes through, and whether it is that of a configured light.
#[derive(Debug)]
pub struct Route {
    pub runtime: LightRuntime,
    pub configured: bool,
}

/// The addresses of the lights.
pub open spec fn addresses(lights: Seq<LightView>) -> Seq<Seq<char>> {
    lights.map_values(|light: LightView| light.address)
}

/// The request addresses that some light lists.
pub open spec fn known_request_ips(lights: Seq<LightView>) -> Set<Seq<char>> {
    Set::new(|ip: Seq<char>| addresses_for(lights, ip).len() > 0)
}

/// A request address leads to configured lights only.
pub proof fn law_request_address_reaches_configured_lights(
    lights: Seq<LightView>,
    ip: Seq<char>,
    i: int,
)
    requires
        0 <= i < addresses_for(lights, ip).len(),
    ensures
        addresses(lights).contains(addresses_for(lights, ip)[i]),
{
    let address = addresses_for(lights, ip)[i];
    assert(addresses_for(lights, ip).contains(address));
    law_maps_to_listing_lights(lights, ip, address);
    let k = choose|k: int|
        0 <= k < lights.len() && #[trigger] lists(lights[k], ip) && lights[k].address == address;
    assert(addresses(lights)[k] == address);
}

/// The configured lights with their runtimes, and the addresses that each request address maps to.
pub struct LightRegistry {
    lights: Vec<Light>,
    runtimes: StringHashMap<LightRuntime>,
    request_ip_map: StringHashMap<Vec<String>>,
}

impl View for LightRegistry {
    type V = Seq<LightView>;

    closed spec fn view(&self) -> Seq<LightView> {
        light_views(self.lights@)
    }
}

impl LightRegistry {
    #[verifier::type_invariant]
    spec fn consistent(self) -> bool {
        &&& maps_to(
            self.request_ip_map@,
            |ip: Seq<char>| addresses_for(light_views(self.lights@), ip),
        )
        &&& self.runtimes@.dom() == addresses(light_views(self.lights@)).to_set()
        &&& forall|address: Seq<char>| #[trigger]
            self.runtimes@.contains_key(address) ==> is_runtime_for(
                self.runtimes@[address],
                address,
            )
    }

    /// The registry of the configured lights.
    pub fn new(config: &LightConfig) -> (registry: Self)
        ensures
            registry@ == light_views(config.lights@),
    {
        let mut lights: Vec<Light> = Vec::new();
        let mut runtimes: StringHashMap<LightRuntime> = StringHashMap::new();
        let ghost views = light_views(config.lights@);
        let mut i: usize = 0;
        assert(addresses(views.take(0)).to_set() =~= runtimes@.dom());
        while i < config.lights.len()
            invariant
                i <= config.lights.len(),
                views == light_views(config.lights@),
                lights.len() == i,
                forall|j: int| 0 <= j < i ==> (#[trigger] lights@[j])@ == views[j],
                runtimes@.dom() == addresses(views.take(i as int)).to_set(),
                forall|address: Seq<char>| #[trigger]
                    runtimes@.contains_key(address) ==> is_runtime_for(
                        runtimes@[address],
                        address,
                    ),
            decreases config.lights.len() - i,
        {
            let light = &config.lights[i];
            let runtime = build_light_runtime(light);
            runtimes.insert(runtime.address.clone(), runtime);
            lights.push(light.clone());
            proof {
                let before = addresses(views.take(i as int));
                let after = addresses(views.take(i + 1));
                assert(after =~= before.push(light@.address));
                assert(after.to_set() =~= before.to_set().insert(light@.address)) by {
                    assert forall|a: Seq<char>| after.contains(a) == (before.contains(a) || a
                        == light@.address) by {
                        if before.contains(a) {
                            let k = choose|k: int| 0 <= k < before.len() && before[k] == a;
                            assert(after[k] == a);
                        }
                        assert(after[before.len() as int] == light@.address);
                    }
                }
            }
            i += 1;
        }
        assert(views.take(views.len() as int) =~= views);
        assert(light_views(lights@) =~= views);
        LightRegistry { lights, runtimes, request_ip_map: config.request_ip_map() }
    }

    /// The configured lights.
    pub fn lights(&self) -> (lights: &Vec<Light>)
        ensures
            light_views(lights@) == self@,
    {
        &self.lights
    }

    /// The addresses that each request address maps to.
    pub fn request_ip_map(&self) -> (map: &StringHashMap<Vec<String>>)
        ensures
            maps_to(map@, |ip: Seq<char>| addresses_for(self@, ip)),
    {
        proof {
            use_type_invariant(self);
        }
        &self.request_ip_map
    }

    /// The number of configured lights, those with the same address counted once.
    pub fn configured_light_count(&self) -> (count: usize)
        ensures
            count == addresses(self@).to_set().len(),
    {
        proof {
            use_type_invariant(self);
        }
        self.runtimes.len()
    }

    /// The number of request addresses that map to a light.
    pub fn mapped_request_ip_count(&self) -> (count: usize)
        ensures
            count == known_request_ips(self@).len(),
    {
        proof {
            use_type_invariant(self);
            assert(self.request_ip_map@.dom() =~= known_request_ips(self@));
        }
        self.request_ip_map.len()
    }

    /// The runtime for `address`: that of the configured light, or a new one.
    pub fn route(&self, address: &str) -> (route: Route)
        ensures
            is_runtime_for(route.runtime, address@),
            route.configured == addresses(self@).contains(address@),
    {
        proof {
            use_type_invariant(self);
            assert(self.runtimes@.contains_key(address@) == addresses(self@).contains(address@));
        }
        match self.runtimes.get(address) {
            Some(runtime) => Route { runtime: runtime.clone(), configured: true },
            None => Route {
                runtime: LightRuntime {
                    address: address.to_string(),
                    pool: build_light_pool(address),
                },
                configured: false,
            },
        }
    }

    /// The addresses that `request_ip` maps to, where it maps to any.
    pub fn addresses_of(&self, request_ip: &str) -> (found: Option<&Vec<String>>)
        ensures
            match found {
                Some(found) => texts(found@) == addresses_for(self@, request_ip@) && found.len()
                    > 0,
                None => addresses_for(self@, request_ip@).len() == 0,
            },
    {
        proof {
            use_type_invariant(self);
        }
        self.request_ip_map.get(request_ip)
    }
}

} // verus!
