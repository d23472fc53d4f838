//! Which light a request is for.

use crate::app_config;
use crate::config::{
    addresses_for, law_first_listing_light_comes_first, law_maps_to_listing_lights, light_views,
    lists, mentions, Light, LightConfig,
};
use crate::light::protocol::LightStatus;
use crate::light::registry::{addresses, known_request_ips, Route};
use crate::light::runtime::{log_startup, LightError, LightJob, LightService, StartupLog};
use crate::light_runtime;
use crate::text::{blank, texts, white_space};
use crate::web::server::{control_light, resolve_target, ControlLightRequest, LightTarget};
use crate::web_server;
use vstd::hash_map::StringHashMap;
use vstd::prelude::*;

verus! {

/// Whether a light lists a request address.
pub open spec fn is_listed(light: Light, ip: Seq<char>) -> bool {
    exists|j: int| 0 <= j < light.request_ips@.len() && #[trigger] light.request_ips@[j]@ == ip
}

/// Whether light `i` is the first that lists a request address.
pub open spec fn is_first_listed(lights: Seq<Light>, ip: Seq<char>, i: int) -> bool {
    &&& 0 <= i < lights.len()
    &&& is_listed(lights[i], ip)
    &&& forall|k: int| 0 <= k < i ==> !is_listed(#[trigger] lights[k], ip)
}

/// Whether no light lists a request address.
pub open spec fn is_unlisted(lights: Seq<Light>, ip: Seq<char>) -> bool {
    forall|k: int| 0 <= k < lights.len() ==> !is_listed(#[trigger] lights[k], ip)
}

/// Whether a light has an address.
pub open spec fn is_configured(lights: Seq<Light>, address: Seq<char>) -> bool {
    exists|k: int| 0 <= k < lights.len() && #[trigger] lights[k].address@ == address
}

/// Whether a route leads to the light at `address`, over one connection at a time, and tells
/// whether that light is one of `lights`.
pub open spec fn leads_to(route: Route, lights: Seq<Light>, address: Seq<char>) -> bool {
    &&& route.runtime.address@ == address
    &&& route.runtime.pool.manager.addr@ == address
    &&& route.runtime.pool.max_size == 1
    &&& route.configured <==> is_configured(lights, address)
}

/// What a map holds for a request address.
pub open spec fn entries(map: Map<Seq<char>, Vec<String>>, ip: Seq<char>) -> Seq<Seq<char>> {
    if map.contains_key(ip) {
        Seq::new(map[ip]@.len(), |i: int| map[ip]@[i]@)
    } else {
        Seq::empty()
    }
}

/// How many times a request address is listed.
pub open spec fn times_listed(ips: Seq<String>, ip: Seq<char>) -> nat
    decreases ips.len(),
{
    if ips.len() == 0 {
        0
    } else {
        times_listed(ips.drop_last(), ip) + (if ips.last()@ == ip {
            1nat
        } else {
            0nat
        })
    }
}

proof fn lemma_listed(light: Light, ip: Seq<char>)
    ensures
        is_listed(light, ip) <==> lists(light@, ip),
{
    let ips = light@.request_ips;
    if is_listed(light, ip) {
        let j = choose|j: int|
            0 <= j < light.request_ips@.len() && #[trigger] light.request_ips@[j]@ == ip;
        assert(ips[j] == ip);
    }
    if ips.contains(ip) {
        let j = choose|j: int| 0 <= j < ips.len() && ips[j] == ip;
        assert(light.request_ips@[j]@ == ip);
    }
}

proof fn lemma_first_listed(lights: Seq<Light>, ip: Seq<char>, i: int)
    requires
        is_first_listed(lights, ip, i),
    ensures
        addresses_for(light_views(lights), ip).len() > 0,
        addresses_for(light_views(lights), ip)[0] == lights[i].address@,
{
    let views = light_views(lights);
    lemma_listed(lights[i], ip);
    assert forall|k: int| 0 <= k < i implies !lists(#[trigger] views[k], ip) by {
        lemma_listed(lights[k], ip);
        assert(views[k] == lights[k]@);
    }
    assert(views[i] == lights[i]@);
    law_first_listing_light_comes_first(views, ip, i);
}

proof fn lemma_unlisted(lights: Seq<Light>, ip: Seq<char>)
    requires
        is_unlisted(lights, ip),
    ensures
        addresses_for(light_views(lights), ip).len() == 0,
{
    let views = light_views(lights);
    let found = addresses_for(views, ip);
    if found.len() > 0 {
        assert(found.contains(found[0]));
        law_maps_to_listing_lights(views, ip, found[0]);
        let k = choose|k: int|
            0 <= k < views.len() && #[trigger] lists(views[k], ip) && views[k].address == found[0];
        lemma_listed(lights[k], ip);
    }
}

proof fn lemma_configured(lights: Seq<Light>, address: Seq<char>)
    ensures
        is_configured(lights, address) <==> addresses(light_views(lights)).contains(address),
{
    let all = addresses(light_views(lights));
    if is_configured(lights, address) {
        let k = choose|k: int| 0 <= k < lights.len() && #[trigger] lights[k].address@ == address;
        assert(all[k] == address);
    }
    if all.contains(address) {
        let k = choose|k: int| 0 <= k < all.len() && all[k] == address;
        assert(lights[k].address@ == address);
    }
}

proof fn lemma_mentions_counted(address: Seq<char>, ips: Seq<String>, ip: Seq<char>)
    ensures
        mentions(address, texts(ips), ip).len() == times_listed(ips, ip),
        forall|i: int|
            0 <= i < times_listed(ips, ip) ==> #[trigger] mentions(address, texts(ips), ip)[i]
                == address,
    decreases ips.len(),
{
    if ips.len() > 0 {
        lemma_mentions_counted(address, ips.drop_last(), ip);
        assert(texts(ips).drop_last() =~= texts(ips.drop_last()));
        assert(texts(ips).last() == ips.last()@);
    }
}

/// Without lights no request address maps anywhere.
pub proof fn law_no_lights_no_entries(
    config: LightConfig,
    map: StringHashMap<Vec<String>>,
    ip: Seq<char>,
)
    requires
        call_ensures(LightConfig::request_ip_map, (&config,), map),
        config.lights@.len() == 0,
    ensures
        !map@.contains_key(ip),
{
    assert(map@.contains_key(ip) == map@.contains_key(ip));
}

/// A further light adds its address to the entry of each request address that it lists, at the
/// end, as many times as it lists it, and changes no other entry.
pub proof fn law_light_adds_its_address(
    config: LightConfig,
    more: LightConfig,
    light: Light,
    map: StringHashMap<Vec<String>>,
    grown: StringHashMap<Vec<String>>,
    ip: Seq<char>,
)
    requires
        call_ensures(LightConfig::request_ip_map, (&config,), map),
        call_ensures(LightConfig::request_ip_map, (&more,), grown),
        more.lights@ == config.lights@.push(light),
    ensures
        entries(grown@, ip) == entries(map@, ip) + Seq::new(
            times_listed(light.request_ips@, ip),
            |i: int| light.address@,
        ),
        map@.contains_key(ip) ==> entries(map@, ip).len() > 0,
{
    let views = light_views(config.lights@);
    let all = light_views(more.lights@);
    assert(all.drop_last() =~= views);
    assert(all.last() == light@);
    lemma_mentions_counted(light.address@, light.request_ips@, ip);
    assert(map@.contains_key(ip) == map@.contains_key(ip));
    assert(grown@.contains_key(ip) == grown@.contains_key(ip));
    assert(entries(map@, ip) =~= addresses_for(views, ip));
    assert(entries(grown@, ip) =~= addresses_for(all, ip));
    assert(mentions(light.address@, light@.request_ips, ip) =~= Seq::new(
        times_listed(light.request_ips@, ip),
        |i: int| light.address@,
    ));
}

/// The two services map request addresses as their configuration does.
pub proof fn law_services_map_as_configured(
    config: LightConfig,
    map: StringHashMap<Vec<String>>,
    service: LightService,
    other: light_runtime::LightService,
    one: &StringHashMap<Vec<String>>,
    two: &StringHashMap<Vec<String>>,
    ip: Seq<char>,
)
    requires
        call_ensures(LightConfig::request_ip_map, (&config,), map),
        call_ensures(LightService::new, (&config,), service),
        call_ensures(light_runtime::LightService::new, (&config,), other),
        call_ensures(LightService::request_ip_map, (&service,), one),
        call_ensures(light_runtime::LightService::request_ip_map, (&other,), two),
    ensures
        one@.contains_key(ip) == map@.contains_key(ip),
        two@.contains_key(ip) == map@.contains_key(ip),
        entries(one@, ip) == entries(map@, ip),
        entries(two@, ip) == entries(map@, ip),
{
    let found = addresses_for(light_views(config.lights@), ip);
    assert(entries(map@, ip) =~= found) by {
        assert(map@.contains_key(ip) == map@.contains_key(ip));
    }
    assert(entries(one@, ip) =~= found) by {
        assert(one@.contains_key(ip) == one@.contains_key(ip));
    }
    assert(entries(two@, ip) =~= found) by {
        assert(two@.contains_key(ip) == two@.contains_key(ip));
    }
}

/// A light is addressed as it was asked for, configured or not.
pub proof fn law_light_is_addressed(
    config: LightConfig,
    service: LightService,
    status: LightStatus,
    light_ip: &str,
    job: LightJob,
)
    requires
        call_ensures(LightService::new, (&config,), service),
        call_ensures(LightService::light, (&service, status, light_ip), job),
    ensures
        leads_to(job.route, config.lights@, light_ip@),
{
    lemma_configured(config.lights@, light_ip@);
}

/// A request address stands for the first light that lists it, and is refused where none does.
pub proof fn law_request_address_finds_the_first_light(
    config: LightConfig,
    service: LightService,
    status: LightStatus,
    request_ip: &str,
    i: int,
    result: Result<LightJob, LightError>,
    job: LightJob,
    light_ip: &str,
)
    requires
        call_ensures(LightService::new, (&config,), service),
        call_ensures(LightService::light_by_request_ip, (&service, status, request_ip), result),
        call_ensures(LightService::light, (&service, status, light_ip), job),
    ensures
        is_first_listed(config.lights@, request_ip@, i) ==> result is Ok && leads_to(
            result->Ok_0.route,
            config.lights@,
            config.lights@[i].address@,
        ) && result->Ok_0.plan.remaining() == job.plan.remaining() && result->Ok_0.io_timeout_ms
            == job.io_timeout_ms,
        is_unlisted(config.lights@, request_ip@) ==> (result matches Err(error) && (error matches
            LightError::UnknownRequestIp(ip) && ip@ == request_ip@)),
{
    if is_first_listed(config.lights@, request_ip@, i) {
        lemma_first_listed(config.lights@, request_ip@, i);
        lemma_configured(config.lights@, config.lights@[i].address@);
    }
    if is_unlisted(config.lights@, request_ip@) {
        lemma_unlisted(config.lights@, request_ip@);
    }
}

/// The service with the built-in commands addresses lights in the same way.
pub proof fn law_built_in_service_finds_the_same_light(
    config: LightConfig,
    service: light_runtime::LightService,
    status: LightStatus,
    light_ip: &str,
    request_ip: &str,
    i: int,
    job: light_runtime::LightJob,
    result: Result<light_runtime::LightJob, light_runtime::LightError>,
)
    requires
        call_ensures(light_runtime::LightService::new, (&config,), service),
        call_ensures(light_runtime::LightService::light, (&service, status, light_ip), job),
        call_ensures(
            light_runtime::LightService::light_by_request_ip,
            (&service, status, request_ip),
            result,
        ),
    ensures
        leads_to(job.route, config.lights@, light_ip@),
        is_first_listed(config.lights@, request_ip@, i) ==> result is Ok && leads_to(
            result->Ok_0.route,
            config.lights@,
            config.lights@[i].address@,
        ) && result->Ok_0.plan.remaining() == job.plan.remaining(),
        is_unlisted(config.lights@, request_ip@) ==> (result matches Err(error) && (error matches
            light_runtime::LightError::UnknownRequestIp(ip) && ip@ == request_ip@)),
{
    lemma_configured(config.lights@, light_ip@);
    if is_first_listed(config.lights@, request_ip@, i) {
        lemma_first_listed(config.lights@, request_ip@, i);
        lemma_configured(config.lights@, config.lights@[i].address@);
    }
    if is_unlisted(config.lights@, request_ip@) {
        lemma_unlisted(config.lights@, request_ip@);
    }
}

/// A status is asked for where a request address maps to one light exactly; where it maps to
/// none, or to more than one, it is refused.
pub proof fn law_status_needs_one_light(
    config: LightConfig,
    service: light_runtime::LightService,
    request_ip: &str,
    map: StringHashMap<Vec<String>>,
    result: Result<Route, light_runtime::LightError>,
)
    requires
        call_ensures(light_runtime::LightService::new, (&config,), service),
        call_ensures(LightConfig::request_ip_map, (&config,), map),
        call_ensures(
            light_runtime::LightService::red_status_by_request_ip,
            (&service, request_ip),
            result,
        ),
    ensures
        entries(map@, request_ip@).len() == 1 ==> result is Ok && leads_to(
            result->Ok_0,
            config.lights@,
            entries(map@, request_ip@)[0],
        ),
        entries(map@, request_ip@).len() == 0 ==> (result matches Err(error) && (error matches
            light_runtime::LightError::UnknownRequestIp(ip) && ip@ == request_ip@)),
        entries(map@, request_ip@).len() > 1 ==> (result matches Err(error) && (error matches
            light_runtime::LightError::MultipleLightsForRequestIp(ip) && ip@ == request_ip@)),
{
    let found = addresses_for(light_views(config.lights@), request_ip@);
    assert(map@.contains_key(request_ip@) == map@.contains_key(request_ip@));
    assert(entries(map@, request_ip@) =~= found);
    if found.len() == 1 {
        lemma_configured(config.lights@, found[0]);
    }
}

/// A status is asked of the light that was asked for, configured or not.
pub proof fn law_status_is_asked_of_the_light(
    config: LightConfig,
    service: light_runtime::LightService,
    light_ip: &str,
    route: Route,
)
    requires
        call_ensures(light_runtime::LightService::new, (&config,), service),
        call_ensures(light_runtime::LightService::red_status, (&service, light_ip), route),
    ensures
        leads_to(route, config.lights@, light_ip@),
{
    lemma_configured(config.lights@, light_ip@);
}

proof fn lemma_count_grows(lights: Seq<Light>, light: Light)
    ensures
        addresses(light_views(lights.push(light))).to_set().len() == addresses(
            light_views(lights),
        ).to_set().len() + (if is_configured(lights, light.address@) {
            0int
        } else {
            1int
        }),
{
    let before = addresses(light_views(lights));
    let after = addresses(light_views(lights.push(light)));
    vstd::seq_lib::seq_to_set_is_finite(before);
    assert(after =~= before.push(light.address@));
    assert(after.to_set() =~= before.to_set().insert(light.address@)) by {
        assert forall|a: Seq<char>| after.contains(a) <==> (before.contains(a) || a
            == light.address@) by {
            if before.contains(a) {
                let k = choose|k: int| 0 <= k < before.len() && before[k] == a;
                assert(after[k] == a);
            }
            assert(after[before.len() as int] == light.address@);
        }
    }
    lemma_configured(lights, light.address@);
    if is_configured(lights, light.address@) {
        assert(before.to_set().contains(light.address@));
        assert(after.to_set() =~= before.to_set());
    } else {
        assert(!before.to_set().contains(light.address@));
    }
}

/// Lights are counted by address: without lights the count is zero, and a further light raises it
/// by one unless a light has its address already.
pub proof fn law_lights_are_counted_by_address(
    config: LightConfig,
    more: LightConfig,
    light: Light,
    services: (LightService, LightService),
    others: (light_runtime::LightService, light_runtime::LightService),
    counts: (usize, usize),
    other_counts: (usize, usize),
)
    requires
        call_ensures(LightService::new, (&config,), services.0),
        call_ensures(LightService::new, (&more,), services.1),
        call_ensures(LightService::configured_light_count, (&services.0,), counts.0),
        call_ensures(LightService::configured_light_count, (&services.1,), counts.1),
        call_ensures(light_runtime::LightService::new, (&config,), others.0),
        call_ensures(light_runtime::LightService::new, (&more,), others.1),
        call_ensures(
            light_runtime::LightService::configured_light_count,
            (&others.0,),
            other_counts.0,
        ),
        call_ensures(
            light_runtime::LightService::configured_light_count,
            (&others.1,),
            other_counts.1,
        ),
        more.lights@ == config.lights@.push(light),
    ensures
        config.lights@.len() == 0 ==> counts.0 == 0 && other_counts.0 == 0,
        counts.1 == counts.0 + (if is_configured(config.lights@, light.address@) {
            0int
        } else {
            1int
        }),
        other_counts == counts,
{
    lemma_count_grows(config.lights@, light);
    let none = addresses(light_views(config.lights@));
    if config.lights@.len() == 0 {
        assert(none.to_set() =~= Set::<Seq<char>>::empty());
    }
}

/// What is logged at the start are the configured lights, in order, and a warning if, and only
/// if, there are none.
pub proof fn law_startup_log_lists_the_lights(
    config: LightConfig,
    service: LightService,
    log: StartupLog,
    lights: &Vec<Light>,
    i: int,
    j: int,
)
    requires
        call_ensures(LightService::new, (&config,), service),
        call_ensures(LightService::lights, (&service,), lights),
        call_ensures(log_startup, (&service,), log),
    ensures
        log.lights@.len() == config.lights@.len(),
        0 <= i < config.lights@.len() ==> log.lights@[i].address@ == config.lights@[i].address@
            && log.lights@[i].request_ips@.len() == config.lights@[i].request_ips@.len(),
        0 <= i < config.lights@.len() && 0 <= j < config.lights@[i].request_ips@.len()
            ==> log.lights@[i].request_ips@[j]@ == config.lights@[i].request_ips@[j]@,
        log.warns_no_lights <==> config.lights@.len() == 0,
        lights@.len() == config.lights@.len(),
        0 <= i < config.lights@.len() ==> lights@[i].address@ == config.lights@[i].address@,
{
    assert(light_views(lights@).len() == lights@.len());
    if 0 <= i < config.lights@.len() {
        assert(light_views(lights@)[i] == lights@[i]@);
    }
    let logged = light_views(log.lights@);
    let views = light_views(config.lights@);
    assert(logged == views);
    assert(logged.len() == log.lights@.len());
    if 0 <= i < config.lights@.len() {
        assert(logged[i] == log.lights@[i]@);
        assert(views[i] == config.lights@[i]@);
        let a = texts(log.lights@[i].request_ips@);
        let b = texts(config.lights@[i].request_ips@);
        assert(a == b);
        assert(a.len() == log.lights@[i].request_ips@.len());
        assert(b.len() == config.lights@[i].request_ips@.len());
        if 0 <= j < b.len() {
            assert(a[j] == log.lights@[i].request_ips@[j]@);
            assert(b[j] == config.lights@[i].request_ips@[j]@);
        }
    }
}

/// What is logged at the start of the service with the built-in commands is how many lights and
/// how many request addresses there are, and a warning if, and only if, there are no lights.
pub proof fn law_startup_log_counts(
    config: LightConfig,
    service: light_runtime::LightService,
    count: usize,
    map: StringHashMap<Vec<String>>,
    log: light_runtime::StartupLog,
)
    requires
        call_ensures(light_runtime::LightService::new, (&config,), service),
        call_ensures(light_runtime::LightService::configured_light_count, (&service,), count),
        call_ensures(LightConfig::request_ip_map, (&config,), map),
        call_ensures(light_runtime::log_startup, (&service,), log),
    ensures
        log.light_count == count,
        log.mapped_request_ip_count == map@.dom().len(),
        log.warns_no_lights <==> count == 0,
{
    let views = light_views(config.lights@);
    assert(map@.dom() =~= known_request_ips(views)) by {
        assert forall|ip: Seq<char>| #[trigger] map@.contains_key(ip) <==> addresses_for(
            views,
            ip,
        ).len() > 0 by {}
    }
}

/// Whether `c` is white space in Unicode.
pub open spec fn is_white(c: char) -> bool {
    let code = c as int;
    ||| 9 <= code <= 13
    ||| code == 32
    ||| code == 133
    ||| code == 160
    ||| code == 5760
    ||| 8192 <= code <= 8202
    ||| code == 8232
    ||| code == 8233
    ||| code == 8239
    ||| code == 8287
    ||| code == 12288
}

/// Whether a text is given: it is there and holds something besides white space.
pub open spec fn is_given(text: Option<String>) -> bool {
    text is Some && exists|i: int| 0 <= i < text->0@.len() && !is_white(#[trigger] text->0@[i])
}

proof fn lemma_given(text: Option<String>)
    ensures
        is_given(text) <==> text is Some && !blank(text->0@),
{
    if text is Some {
        let chars = text->0@;
        assert forall|i: int| 0 <= i < chars.len() implies is_white(#[trigger] chars[i])
            == white_space(chars[i]) by {}
        if !blank(chars) {
            let i = choose|i: int| 0 <= i < chars.len() && !white_space(#[trigger] chars[i]);
            assert(!is_white(chars[i]));
        }
        if is_given(text) {
            let i = choose|i: int| 0 <= i < chars.len() && !is_white(#[trigger] chars[i]);
            assert(!white_space(chars[i]));
        }
    }
}

/// The light is found by its own address where one is given; else by the request address, where
/// one is given, exactly as it is; else by the address that the request came from.
pub proof fn law_order_of_addressing(
    light_ip: Option<String>,
    request_ip: Option<String>,
    remote_ip: String,
    target: LightTarget,
)
    requires
        call_ensures(resolve_target, (light_ip, request_ip, remote_ip), target),
    ensures
        is_given(light_ip) ==> target == LightTarget::LightIp(light_ip->0),
        !is_given(light_ip) && is_given(request_ip) ==> target == LightTarget::RequestIp(
            request_ip->0,
        ),
        !is_given(light_ip) && !is_given(request_ip) ==> target == LightTarget::RequestIp(
            remote_ip,
        ),
{
    lemma_given(light_ip);
    lemma_given(request_ip);
}

/// A request controls the light that it asks for: the one at the light address where one is
/// given, else the first one that lists the request address, or the remote address where none is
/// given; and it is refused where no light lists that address.
pub proof fn law_request_controls_the_light_it_asks_for(
    config: LightConfig,
    service: LightService,
    request: ControlLightRequest,
    remote_ip: String,
    i: int,
    result: Result<LightJob, LightError>,
    job: LightJob,
    any_ip: &str,
)
    requires
        call_ensures(LightService::new, (&config,), service),
        call_ensures(control_light, (&service, request, remote_ip), result),
        call_ensures(LightService::light, (&service, request.status, any_ip), job),
    ensures
        result matches Ok(work) ==> work.plan.remaining() == job.plan.remaining()
            && work.io_timeout_ms == job.io_timeout_ms,
        is_given(request.light_ip) ==> result is Ok && leads_to(
            result->Ok_0.route,
            config.lights@,
            request.light_ip->0@,
        ),
        !is_given(request.light_ip) ==> {
            let ip = if is_given(request.request_ip) {
                request.request_ip->0@
            } else {
                remote_ip@
            };
            &&& is_first_listed(config.lights@, ip, i) ==> result is Ok && leads_to(
                result->Ok_0.route,
                config.lights@,
                config.lights@[i].address@,
            )
            &&& is_unlisted(config.lights@, ip) ==> (result matches Err(error) && (error matches
                LightError::UnknownRequestIp(unknown) && unknown@ == ip))
        },
{
    lemma_given(request.light_ip);
    lemma_given(request.request_ip);
    let lights = config.lights@;
    if is_given(request.light_ip) {
        lemma_configured(lights, request.light_ip->0@);
    } else {
        let ip = if is_given(request.request_ip) {
            request.request_ip->0@
        } else {
            remote_ip@
        };
        if is_first_listed(lights, ip, i) {
            lemma_first_listed(lights, ip, i);
            lemma_configured(lights, lights[i].address@);
        }
        if is_unlisted(lights, ip) {
            lemma_unlisted(lights, ip);
        }
    }
}

/// The same holds with the built-in commands.
pub proof fn law_built_in_request_controls_the_light_it_asks_for(
    config: LightConfig,
    service: light_runtime::LightService,
    request: ControlLightRequest,
    remote_ip: String,
    i: int,
    result: Result<light_runtime::LightJob, light_runtime::LightError>,
    job: light_runtime::LightJob,
    any_ip: &str,
)
    requires
        call_ensures(light_runtime::LightService::new, (&config,), service),
        call_ensures(web_server::control_light, (&service, request, remote_ip), result),
        call_ensures(light_runtime::LightService::light, (&service, request.status, any_ip), job),
    ensures
        result matches Ok(work) ==> work.plan.remaining() == job.plan.remaining(),
        is_given(request.light_ip) ==> result is Ok && leads_to(
            result->Ok_0.route,
            config.lights@,
            request.light_ip->0@,
        ),
        !is_given(request.light_ip) ==> {
            let ip = if is_given(request.request_ip) {
                request.request_ip->0@
            } else {
                remote_ip@
            };
            &&& is_first_listed(config.lights@, ip, i) ==> result is Ok && leads_to(
                result->Ok_0.route,
                config.lights@,
                config.lights@[i].address@,
            )
            &&& is_unlisted(config.lights@, ip) ==> (result matches Err(error) && (error matches
                light_runtime::LightError::UnknownRequestIp(unknown) && unknown@ == ip))
        },
{
    lemma_given(request.light_ip);
    lemma_given(request.request_ip);
    let lights = config.lights@;
    if is_given(request.light_ip) {
        lemma_configured(lights, request.light_ip->0@);
    } else {
        let ip = if is_given(request.request_ip) {
            request.request_ip->0@
        } else {
            remote_ip@
        };
        if is_first_listed(lights, ip, i) {
            lemma_first_listed(lights, ip, i);
            lemma_configured(lights, lights[i].address@);
        }
        if is_unlisted(lights, ip) {
            lemma_unlisted(lights, ip);
        }
    }
}

/// A request address maps to the light of the last pair that lists it, and nowhere without one.
pub proof fn law_pairs_are_mapped(
    config: app_config::LightConfig,
    map: StringHashMap<String>,
    ip: Seq<char>,
    i: int,
)
    requires
        call_ensures(app_config::LightConfig::request_ip_map, (&config,), map),
    ensures
        0 <= i < config.request_light_maps@.len() && config.request_light_maps@[i].request_ip@ == ip
            && (forall|k: int|
            i < k < config.request_light_maps@.len() ==> (
            #[trigger] config.request_light_maps@[k]).request_ip@ != ip) ==> map@.contains_key(ip)
            && map@[ip]@ == config.request_light_maps@[i].light_ip@,
        (forall|k: int|
            0 <= k < config.request_light_maps@.len() ==> (
            #[trigger] config.request_light_maps@[k]).request_ip@ != ip) ==> !map@.contains_key(ip),
{
    let items = config.request_light_maps@;
    let pairs = app_config::pairs(items);
    let view = app_config::map_texts(map@);
    assert(view.contains_key(ip) == map@.contains_key(ip));
    if 0 <= i < items.len() && items[i].request_ip@ == ip && (forall|k: int|
        i < k < items.len() ==> (#[trigger] items[k]).request_ip@ != ip) {
        assert forall|k: int| i < k < pairs.len() implies (#[trigger] pairs[k]).0 != pairs[i].0 by {
            assert(items[k].request_ip@ != ip);
        }
        app_config::law_last_pair_counts(pairs, i);
        assert(view[ip] == map@[ip]@);
    }
    if forall|k: int| 0 <= k < items.len() ==> (#[trigger] items[k]).request_ip@ != ip {
        assert forall|k: int| 0 <= k < pairs.len() implies (#[trigger] pairs[k]).0 != ip by {
            assert(items[k].request_ip@ != ip);
        }
        app_config::law_unlisted_address_maps_nowhere(pairs, ip);
    }
}

/// A port that is configured is used, whatever it is; else that of Modbus TCP.
pub proof fn law_configured_port_is_used(config: app_config::LightConfig, port: u16)
    requires
        call_ensures(app_config::LightConfig::port, (&config,), port),
    ensures
        config.default_port != 0 ==> port == config.default_port,
        config.default_port == 0 ==> port == 502,
{
}

} // verus!
