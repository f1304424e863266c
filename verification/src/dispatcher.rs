use crate::error::DispatchError;
use crate::keyed_uri::{uri_list_has, KeyedUri};
use crate::region::{region_from_i32, Region};
use crate::registry::{
    keys_has, reg_has_key, reg_wf, RouterEntryView, RouterKey, RouterKeyView, RouterRegistry,
};
use crate::response::{Challenge, GatewayResponse, ResponseMsg};
use crate::routing::{Packet, RoutingDescriptor, RoutingDescriptorView};
use vstd::prelude::*;

verus! {

/// How many retries the gateway backoff policy doubles for; past them the
/// wait saturates at the maximum.
pub const GATEWAY_BACKOFF_RETRIES: u32 = 10;

/// The shortest backoff wait, in seconds.
pub const GATEWAY_BACKOFF_MIN_WAIT_SECS: u64 = 5;

/// The longest backoff wait, in seconds.
pub const GATEWAY_BACKOFF_MAX_WAIT_SECS: u64 = 1800;

/// The largest block age a healthy validator may report, in seconds.
pub const GATEWAY_MAX_BLOCK_AGE_SECS: u64 = 600;

/// How often the liveness check runs, in seconds.
pub const GATEWAY_CHECK_INTERVAL_SECS: u64 = GATEWAY_MAX_BLOCK_AGE_SECS / 2;

/// A message arriving on the dispatcher's inbound port. The reply channels
/// of the query messages live in the surrounding shell; here a query is
/// answered through a reply action.
#[derive(Debug)]
pub enum Message {
    Uplink(Packet),
    PocPacket(Packet),
    Config { keys: Vec<String> },
    Height,
    Region,
}

/// The answer to a height query: the answering validator, its chain
/// height and block age, and its version when it knows one. A version the
/// validator reported as unknown stays `None`; a known zero stays
/// `Some(0)`.
#[derive(Debug)]
pub struct HeightResponse {
    pub gateway: KeyedUri,
    pub height: u64,
    pub block_age: u64,
    pub gateway_version: Option<u64>,
}

/// One side effect the surrounding shell performs on the dispatcher's
/// behalf: starting or stopping a router task, handing a router a packet
/// or a notice, forwarding to the PoC worker, querying the attached
/// validator, or answering a query port.
#[derive(Debug)]
pub enum Action {
    StartRouter { key: RouterKey, routing: RoutingDescriptor },
    StopRouter { key: RouterKey },
    UplinkTo { key: RouterKey, packet: Packet },
    RegionChangedFor { key: RouterKey, region: Region },
    GatewayChangedFor { key: RouterKey, attached: bool },
    PocChallengeForward { challenge: Challenge },
    PocPacketForward { packet: Packet },
    PocConfigChanged { keys: Vec<String> },
    QueryConfig { keys: Vec<String> },
    QueryHeight,
    ReplyRegion { region: Region },
    ReplyNoService,
}

/// The dispatcher's state: the cached region and the two per-attachment
/// height watermarks, the retry count feeding the backoff policy, the
/// bootstrap seed list, the optional default-router list for unmatched
/// uplinks, the router registry, and the identity of the attached
/// validator, if any.
pub struct Dispatcher {
    pub region: Region,
    pub routing_height: u64,
    pub region_height: u64,
    pub gateway_retry: u32,
    pub seed_gateways: Vec<KeyedUri>,
    pub default_routers: Option<Vec<KeyedUri>>,
    pub routers: RouterRegistry,
    pub gateway: Option<KeyedUri>,
}

/// Relies on rand::random_range: a uniformly drawn index below `n`; the
/// call panics on an empty range, so the range must not be empty.
#[verifier::external_body]
fn random_index(n: usize) -> (r: usize)
    requires
        n > 0,
    ensures
        r < n,
{
    rand::random_range(0..n)
}

/// Picks a seed validator uniformly from the seed list; an empty seed
/// list is the one fatal configuration error.
pub fn select_seed(seeds: &Vec<KeyedUri>) -> (r: Result<KeyedUri, DispatchError>)
    ensures
        (r is Err) <==> seeds@.len() == 0,
        r matches Ok(u) ==> uri_list_has(seeds@, u@),
        r matches Err(e) ==> e matches DispatchError::Custom(m) && m@ == "empty uri list"@,
{
    if seeds.len() == 0 {
        Err(DispatchError::custom("empty uri list"))
    } else {
        let i = random_index(seeds.len());
        let u = seeds[i].duplicate();
        proof {
            assert(seeds@[i as int]@ == u@);
        }
        Ok(u)
    }
}

/// Picks one validator uniformly from a discovery answer; an empty answer
/// is an error.
pub fn choose_validator(validators: &Vec<KeyedUri>) -> (r: Result<KeyedUri, DispatchError>)
    ensures
        (r is Err) <==> validators@.len() == 0,
        r matches Ok(u) ==> uri_list_has(validators@, u@),
        r matches Err(e) ==> e matches DispatchError::Custom(m) && m@ == "empty gateway list"@,
{
    if validators.len() == 0 {
        Err(DispatchError::custom("empty gateway list"))
    } else {
        let i = random_index(validators.len());
        let u = validators[i].duplicate();
        proof {
            assert(validators@[i as int]@ == u@);
        }
        Ok(u)
    }
}

/// The backoff wait in seconds before retry number `retry`: truncated
/// exponential, doubling from the minimum wait and saturating at the
/// maximum, which also answers every retry past the retry count.
pub open spec fn spec_backoff_wait(retry: nat) -> nat
    decreases retry,
{
    if retry <= 1 {
        GATEWAY_BACKOFF_MIN_WAIT_SECS as nat
    } else if retry > GATEWAY_BACKOFF_RETRIES as nat {
        GATEWAY_BACKOFF_MAX_WAIT_SECS as nat
    } else if 2 * spec_backoff_wait((retry - 1) as nat) > GATEWAY_BACKOFF_MAX_WAIT_SECS as nat {
        GATEWAY_BACKOFF_MAX_WAIT_SECS as nat
    } else {
        2 * spec_backoff_wait((retry - 1) as nat)
    }
}

/// The backoff wait in seconds before retry number `retry`.
pub fn backoff_wait(retry: u32) -> (w: u64)
    ensures
        w as nat == spec_backoff_wait(retry as nat),
{
    if retry > GATEWAY_BACKOFF_RETRIES {
        return GATEWAY_BACKOFF_MAX_WAIT_SECS;
    }
    let mut w: u64 = GATEWAY_BACKOFF_MIN_WAIT_SECS;
    let mut i: u32 = 1;
    while i < retry
        invariant
            1 <= i,
            i <= retry || i == 1,
            retry <= GATEWAY_BACKOFF_RETRIES,
            w as nat == spec_backoff_wait(i as nat),
            w <= GATEWAY_BACKOFF_MAX_WAIT_SECS,
        decreases retry - i,
    {
        if w > GATEWAY_BACKOFF_MAX_WAIT_SECS / 2 {
            w = GATEWAY_BACKOFF_MAX_WAIT_SECS;
        } else {
            w = 2 * w;
        }
        i += 1;
    }
    w
}

/// Whether a reported block age keeps the attachment healthy: an age over
/// the maximum block age fails the gateway check with both ages named.
pub fn check_gateway(block_age: u64) -> (r: Result<(), DispatchError>)
    ensures
        (r is Ok) <==> block_age <= GATEWAY_MAX_BLOCK_AGE_SECS,
        r matches Err(e) ==> e matches DispatchError::GatewayCheck { block_age: b, max_age } && b
            == block_age && max_age == GATEWAY_MAX_BLOCK_AGE_SECS,
{
    if block_age > GATEWAY_MAX_BLOCK_AGE_SECS {
        Err(
            DispatchError::GatewayCheck {
                block_age,
                max_age: GATEWAY_MAX_BLOCK_AGE_SECS,
            },
        )
    } else {
        Ok(())
    }
}

/// A version answer with its RPC failure folded to "unknown", as the
/// height query treats it.
pub fn version_or_unknown(r: Result<Option<u64>, DispatchError>) -> (v: Option<u64>)
    ensures
        match r {
            Ok(x) => v == x,
            Err(_) => v is None,
        },
{
    match r {
        Ok(x) => x,
        Err(_) => None,
    }
}

/// Assembles the answer to a height query from the attached validator's
/// identity, its version answer, and its height answer.
pub fn make_height_response(gateway: &KeyedUri, version: Option<u64>, height: u64, block_age: u64)
    -> (r: HeightResponse)
    ensures
        r.gateway@ == gateway@,
        r.height == height,
        r.block_age == block_age,
        r.gateway_version == version,
{
    HeightResponse { gateway: gateway.duplicate(), height, block_age, gateway_version: version }
}

impl Dispatcher {
    /// A well-formed dispatcher: its registry is well-formed, which also
    /// carries that every admitted router key is covered by the
    /// descriptor it was admitted under.
    pub open spec fn wf(&self) -> bool {
        reg_wf(self.routers@)
    }

    /// A fresh dispatcher: the configured region, seed list and default
    /// routers, both height watermarks at zero, no retries yet, an empty
    /// registry, and no validator attached.
    pub fn new(
        region: Region,
        seed_gateways: Vec<KeyedUri>,
        default_routers: Option<Vec<KeyedUri>>,
    ) -> (d: Dispatcher)
        ensures
            d.wf(),
            d.region == region,
            d.routing_height == 0,
            d.region_height == 0,
            d.gateway_retry == 0,
            d.seed_gateways == seed_gateways,
            d.default_routers == default_routers,
            d.routers@.len() == 0,
            d.gateway is None,
    {
        Dispatcher {
            region,
            routing_height: 0,
            region_height: 0,
            gateway_retry: 0,
            seed_gateways,
            default_routers,
            routers: RouterRegistry::new(),
            gateway: None,
        }
    }

    /// Records the new attachment and tells every admitted router about
    /// the new validator, one notice per router in registry order.
    pub fn attach_gateway(&mut self, gateway: KeyedUri) -> (acts: Vec<Action>)
        requires
            old(self).wf(),
        ensures
            final(self).wf(),
            final(self).gateway matches Some(g) && g@ == gateway@,
            final(self).region == old(self).region,
            final(self).routing_height == old(self).routing_height,
            final(self).region_height == old(self).region_height,
            final(self).gateway_retry == old(self).gateway_retry,
            final(self).seed_gateways == old(self).seed_gateways,
            final(self).default_routers == old(self).default_routers,
            final(self).routers@ == old(self).routers@,
            acts@.len() == final(self).routers@.len(),
            forall|i: int|
                0 <= i < acts@.len() ==> ((#[trigger] acts@[i]) matches Action::GatewayChangedFor {
                    key,
                    attached,
                } && key@ == final(self).routers@[i].key && attached),
    {
        let ghost pre = self.routers@;
        let keys = self.routers.all_keys();
        let mut acts: Vec<Action> = Vec::new();
        let mut i: usize = 0;
        while i < keys.len()
            invariant
                i <= keys@.len(),
                crate::registry::key_views(keys@).len() == pre.len(),
                forall|j: int|
                    0 <= j < pre.len() ==> #[trigger] crate::registry::key_views(keys@)[j]
                        == pre[j].key,
                acts@.len() == i,
                forall|j: int|
                    0 <= j < i ==> ((#[trigger] acts@[j]) matches Action::GatewayChangedFor {
                        key,
                        attached,
                    } && key@ == pre[j].key && attached),
            decreases keys@.len() - i,
        {
            let k = keys[i].duplicate();
            proof {
                assert(k@ == crate::registry::key_views(keys@)[i as int]);
            }
            acts.push(Action::GatewayChangedFor { key: k, attached: true });
            i += 1;
        }
        self.gateway = Some(gateway);
        acts
    }

    /// Prepares for a validator change: tells every router the validator
    /// is gone, resets both height watermarks to zero, counts the retry,
    /// and computes the backoff wait in seconds before the next attempt.
    pub fn prepare_gateway_change(&mut self) -> (r: (Vec<Action>, u64))
        requires
            old(self).wf(),
        ensures
            final(self).wf(),
            final(self).gateway is None,
            final(self).routing_height == 0,
            final(self).region_height == 0,
            final(self).gateway_retry as int == if old(self).gateway_retry < u32::MAX {
                old(self).gateway_retry + 1
            } else {
                old(self).gateway_retry as int
            },
            final(self).region == old(self).region,
            final(self).seed_gateways == old(self).seed_gateways,
            final(self).default_routers == old(self).default_routers,
            final(self).routers@ == old(self).routers@,
            r.1 as nat == spec_backoff_wait(final(self).gateway_retry as nat),
            r.0@.len() == final(self).routers@.len(),
            forall|i: int|
                0 <= i < r.0@.len() ==> ((#[trigger] r.0@[i]) matches Action::GatewayChangedFor {
                    key,
                    attached,
                } && key@ == final(self).routers@[i].key && !attached),
    {
        let ghost pre = self.routers@;
        let keys = self.routers.all_keys();
        let mut acts: Vec<Action> = Vec::new();
        let mut i: usize = 0;
        while i < keys.len()
            invariant
                i <= keys@.len(),
                crate::registry::key_views(keys@).len() == pre.len(),
                forall|j: int|
                    0 <= j < pre.len() ==> #[trigger] crate::registry::key_views(keys@)[j]
                        == pre[j].key,
                acts@.len() == i,
                forall|j: int|
                    0 <= j < i ==> ((#[trigger] acts@[j]) matches Action::GatewayChangedFor {
                        key,
                        attached,
                    } && key@ == pre[j].key && !attached),
            decreases keys@.len() - i,
        {
            let k = keys[i].duplicate();
            proof {
                assert(k@ == crate::registry::key_views(keys@)[i as int]);
            }
            acts.push(Action::GatewayChangedFor { key: k, attached: false });
            i += 1;
        }
        self.gateway = None;
        self.routing_height = 0;
        self.region_height = 0;
        if self.gateway_retry < u32::MAX {
            self.gateway_retry = self.gateway_retry + 1;
        }
        let wait = backoff_wait(self.gateway_retry);
        (acts, wait)
    }

    /// Applies the outcome of one liveness check: a healthy answer resets
    /// the retry count; an RPC failure or a block age over the maximum is
    /// unhealthy, leaves the state untouched, and the caller leaves the
    /// attachment.
    pub fn handle_gateway_check(&mut self, height_result: Option<(u64, u64)>) -> (healthy: bool)
        requires
            old(self).wf(),
        ensures
            final(self).wf(),
            match height_result {
                Some((h, age)) => if age <= GATEWAY_MAX_BLOCK_AGE_SECS {
                    healthy && final(self).gateway_retry == 0
                        && final(self).region == old(self).region
                        && final(self).routing_height == old(self).routing_height
                        && final(self).region_height == old(self).region_height
                        && final(self).seed_gateways == old(self).seed_gateways
                        && final(self).default_routers == old(self).default_routers
                        && final(self).routers@ == old(self).routers@
                        && final(self).gateway == old(self).gateway
                } else {
                    !healthy && *final(self) == *old(self)
                },
                None => !healthy && *final(self) == *old(self),
            },
    {
        match height_result {
            Some((_h, age)) => {
                match check_gateway(age) {
                    Ok(()) => {
                        self.gateway_retry = 0;
                        true
                    },
                    Err(_) => false,
                }
            },
            None => false,
        }
    }

    /// Handles one region update from the region stream. An update at or
    /// below the region watermark is dropped and changes nothing; so is
    /// one whose region cannot be decoded. A fresh update advances the
    /// watermark, replaces the cached region, and notifies every admitted
    /// router, one notice per router in registry order.
    pub fn handle_region_update(&mut self, resp: &GatewayResponse) -> (acts: Vec<Action>)
        requires
            old(self).wf(),
        ensures
            final(self).wf(),
            region_update_post(*old(self), *final(self), *resp, acts@),
    {
        if resp.height() <= self.region_height {
            return Vec::new();
        }
        match resp.region() {
            Ok(reg) => {
                self.region_height = resp.height();
                self.region = reg;
                let ghost pre = self.routers@;
                let keys = self.routers.all_keys();
                let mut acts: Vec<Action> = Vec::new();
                let mut i: usize = 0;
                while i < keys.len()
                    invariant
                        i <= keys@.len(),
                        crate::registry::key_views(keys@).len() == pre.len(),
                        forall|j: int|
                            0 <= j < pre.len() ==> #[trigger] crate::registry::key_views(keys@)[j]
                                == pre[j].key,
                        acts@.len() == i,
                        forall|j: int|
                            0 <= j < i ==> ((#[trigger] acts@[j])
                                matches Action::RegionChangedFor { key, region: rg } && key@
                                == pre[j].key && rg == reg),
                    decreases keys@.len() - i,
                {
                    let k = keys[i].duplicate();
                    proof {
                        assert(k@ == crate::registry::key_views(keys@)[i as int]);
                    }
                    acts.push(Action::RegionChangedFor { key: k, region: reg });
                    i += 1;
                }
                acts
            },
            Err(_) => Vec::new(),
        }
    }

    /// Handles one configuration update from the config stream: the
    /// changed keys are forwarded to the PoC worker; an unexpected message
    /// is dropped.
    pub fn handle_config_change(&self, resp: GatewayResponse) -> (acts: Vec<Action>)
        ensures
            config_change_acts(resp, acts@),
    {
        match resp.config_update() {
            Ok(keys) => {
                let mut acts: Vec<Action> = Vec::new();
                acts.push(Action::PocConfigChanged { keys });
                acts
            },
            Err(_) => Vec::new(),
        }
    }

    /// Handles one challenge notification from the PoC stream: a
    /// decodable challenge is forwarded to the PoC worker; a notification
    /// without a challenger, or an unexpected message, is dropped.
    pub fn handle_poc_challenge(&self, resp: GatewayResponse) -> (acts: Vec<Action>)
        ensures
            poc_challenge_acts(resp, acts@),
    {
        match Challenge::try_from(resp) {
            Ok(challenge) => {
                let mut acts: Vec<Action> = Vec::new();
                acts.push(Action::PocChallengeForward { challenge });
                acts
            },
            Err(_) => Vec::new(),
        }
    }

    /// Handles one routing update from the routing stream. An update at
    /// or below the routing watermark is dropped and changes nothing; so
    /// is an unexpected message. A fresh update reconciles the registry
    /// against each descriptor in order — a key is finally present exactly
    /// as the descriptors prescribe — advances the watermark to the
    /// update's height, and returns the start and stop actions of the
    /// admitted and swept routers.
    pub fn handle_routing_update(&mut self, resp: GatewayResponse) -> (acts: Vec<Action>)
        requires
            old(self).wf(),
        ensures
            final(self).wf(),
            routing_update_post(*old(self), *final(self), resp, acts@),
    {
        let height = resp.height();
        if height <= self.routing_height {
            return Vec::new();
        }
        match resp.routings() {
            Err(_) => Vec::new(),
            Ok(descs) => {
                let ghost base = self.routers@;
                let mut acts: Vec<Action> = Vec::new();
                let mut i: usize = 0;
                proof {
                    assert(desc_views(descs@).subrange(0, 0) =~= Seq::<
                        RoutingDescriptorView,
                    >::empty());
                    assert(start_act_keys(acts@) =~= Seq::<RouterKeyView>::empty());
                    assert(stop_act_keys(acts@) =~= Seq::<RouterKeyView>::empty());
                }
                while i < descs.len()
                    invariant
                        i <= descs@.len(),
                        reg_wf(self.routers@),
                        forall|t: int|
                            0 <= t < acts@.len() ==> (((#[trigger] acts@[t])
                                matches Action::StartRouter { key, routing } && key@.oui
                                == routing@.oui && crate::routing::spec_contains_uri(
                                routing@,
                                key@.uri,
                            ) && desc_views(descs@).contains(routing@)) || acts@[t]
                                is StopRouter),
                        self.region == old(self).region,
                        self.routing_height == old(self).routing_height,
                        self.region_height == old(self).region_height,
                        self.gateway_retry == old(self).gateway_retry,
                        self.gateway == old(self).gateway,
                        self.seed_gateways == old(self).seed_gateways,
                        self.default_routers == old(self).default_routers,
                        forall|k: RouterKeyView|
                            #[trigger] reg_has_key(self.routers@, k) <==> member_after(
                                desc_views(descs@).subrange(0, i as int),
                                base,
                                k,
                            ),
                        forall|k: RouterKeyView|
                            #[trigger] keys_has(start_act_keys(acts@), k) <==> spec_batch_started(
                                desc_views(descs@).subrange(0, i as int),
                                base,
                                k,
                            ),
                        forall|k: RouterKeyView|
                            #[trigger] keys_has(stop_act_keys(acts@), k) <==> spec_batch_stopped(
                                desc_views(descs@).subrange(0, i as int),
                                base,
                                k,
                            ),
                    decreases descs@.len() - i,
                {
                    let d = &descs[i];
                    let ghost prev = self.routers@;
                    let ghost acts_pre = acts@;
                    let ghost start_pre = start_act_keys(acts_pre);
                    let ghost stop_pre = stop_act_keys(acts_pre);
                    let (started, stopped) = self.routers.apply_descriptor(d);
                    proof {
                        let pref1 = desc_views(descs@).subrange(0, i as int + 1);
                        assert(pref1.last() == descs@[i as int]@);
                        assert(pref1.drop_last() =~= desc_views(descs@).subrange(0, i as int));
                        assert forall|k: RouterKeyView| #[trigger]
                            reg_has_key(self.routers@, k) <==> member_after(pref1, base, k) by {
                            assert(reg_has_key(self.routers@, k) <==> if k.oui == d@.oui {
                                crate::routing::spec_contains_uri(d@, k.uri)
                            } else {
                                reg_has_key(prev, k)
                            });
                        }
                    }
                    let mut t: usize = 0;
                    while t < started.len()
                        invariant
                            t <= started@.len(),
                            i < descs@.len(),
                            d == &descs@[i as int],
                            start_act_keys(acts@) == start_pre + crate::registry::key_views(
                                started@,
                            ).subrange(0, t as int),
                            stop_act_keys(acts@) == stop_pre,
                            forall|k: RouterKeyView|
                                #[trigger] keys_has(
                                    crate::registry::key_views(started@),
                                    k,
                                ) ==> (k.oui == d@.oui && crate::routing::spec_contains_uri(
                                    d@,
                                    k.uri,
                                )),
                            forall|t3: int|
                                0 <= t3 < acts@.len() ==> (((#[trigger] acts@[t3])
                                    matches Action::StartRouter { key, routing } && key@.oui
                                    == routing@.oui && crate::routing::spec_contains_uri(
                                    routing@,
                                    key@.uri,
                                ) && desc_views(descs@).contains(routing@)) || acts@[t3]
                                    is StopRouter),
                        decreases started@.len() - t,
                    {
                        let key = started[t].duplicate();
                        let routing = d.duplicate();
                        proof {
                            assert(keys_has(
                                crate::registry::key_views(started@),
                                crate::registry::key_views(started@)[t as int],
                            ));
                            assert(key@ == crate::registry::key_views(started@)[t as int]);
                            assert(desc_views(descs@)[i as int] == d@);
                            assert(desc_views(descs@).contains(routing@));
                        }
                        let ghost apre = acts@;
                        acts.push(Action::StartRouter { key, routing });
                        proof {
                            assert(acts@.drop_last() =~= apre);
                            assert(start_act_keys(acts@) =~= start_act_keys(apre).push(key@));
                            assert(stop_act_keys(acts@) =~= stop_act_keys(apre));
                            assert(crate::registry::key_views(started@).subrange(0, t as int + 1)
                                =~= crate::registry::key_views(started@).subrange(
                                0,
                                t as int,
                            ).push(crate::registry::key_views(started@)[t as int]));
                            assert(start_act_keys(acts@) =~= start_pre
                                + crate::registry::key_views(started@).subrange(0, t as int + 1));
                        }
                        t += 1;
                    }
                    proof {
                        assert(crate::registry::key_views(started@).subrange(
                            0,
                            started@.len() as int,
                        ) =~= crate::registry::key_views(started@));
                    }
                    let ghost start_full = start_act_keys(acts@);
                    let mut t2: usize = 0;
                    while t2 < stopped.len()
                        invariant
                            t2 <= stopped@.len(),
                            start_act_keys(acts@) == start_full,
                            stop_act_keys(acts@) == stop_pre + crate::registry::key_views(
                                stopped@,
                            ).subrange(0, t2 as int),
                            forall|t3: int|
                                0 <= t3 < acts@.len() ==> (((#[trigger] acts@[t3])
                                    matches Action::StartRouter { key, routing } && key@.oui
                                    == routing@.oui && crate::routing::spec_contains_uri(
                                    routing@,
                                    key@.uri,
                                ) && desc_views(descs@).contains(routing@)) || acts@[t3]
                                    is StopRouter),
                        decreases stopped@.len() - t2,
                    {
                        let key2 = stopped[t2].duplicate();
                        proof {
                            assert(key2@ == crate::registry::key_views(stopped@)[t2 as int]);
                        }
                        let ghost apre2 = acts@;
                        acts.push(Action::StopRouter { key: key2 });
                        proof {
                            assert(acts@.drop_last() =~= apre2);
                            assert(stop_act_keys(acts@) =~= stop_act_keys(apre2).push(key2@));
                            assert(start_act_keys(acts@) =~= start_act_keys(apre2));
                            assert(crate::registry::key_views(stopped@).subrange(0, t2 as int + 1)
                                =~= crate::registry::key_views(stopped@).subrange(
                                0,
                                t2 as int,
                            ).push(crate::registry::key_views(stopped@)[t2 as int]));
                            assert(stop_act_keys(acts@) =~= stop_pre
                                + crate::registry::key_views(stopped@).subrange(0, t2 as int + 1));
                        }
                        t2 += 1;
                    }
                    proof {
                        assert(crate::registry::key_views(stopped@).subrange(
                            0,
                            stopped@.len() as int,
                        ) =~= crate::registry::key_views(stopped@));
                        let pref = desc_views(descs@).subrange(0, i as int);
                        let pref1 = desc_views(descs@).subrange(0, i as int + 1);
                        assert(pref1.last() == descs@[i as int]@);
                        assert(pref1.drop_last() =~= pref);
                        let sk = crate::registry::key_views(started@);
                        let pk = crate::registry::key_views(stopped@);
                        assert(start_act_keys(acts@) == start_pre + sk);
                        assert(stop_act_keys(acts@) == stop_pre + pk);
                        assert forall|k: RouterKeyView| #[trigger]
                            keys_has(start_act_keys(acts@), k) <==> spec_batch_started(
                            pref1,
                            base,
                            k,
                        ) by {
                            assert(keys_has(start_pre, k) <==> spec_batch_started(pref, base, k));
                            assert(reg_has_key(prev, k) <==> member_after(pref, base, k));
                            assert(keys_has(sk, k) <==> (k.oui == d@.oui
                                && crate::routing::spec_contains_uri(d@, k.uri) && !reg_has_key(
                                prev,
                                k,
                            )));
                            if keys_has(start_act_keys(acts@), k) {
                                let x = choose|x: int|
                                    0 <= x < start_act_keys(acts@).len() && start_act_keys(acts@)[x]
                                        == k;
                                if x < start_pre.len() {
                                    assert(start_pre[x] == k);
                                } else {
                                    assert(sk[x - start_pre.len()] == k);
                                }
                            }
                            if keys_has(start_pre, k) {
                                let x = choose|x: int|
                                    0 <= x < start_pre.len() && start_pre[x] == k;
                                assert(start_act_keys(acts@)[x] == k);
                            }
                            if keys_has(sk, k) {
                                let x = choose|x: int| 0 <= x < sk.len() && sk[x] == k;
                                assert(start_act_keys(acts@)[start_pre.len() + x] == k);
                            }
                        }
                        assert forall|k: RouterKeyView| #[trigger]
                            keys_has(stop_act_keys(acts@), k) <==> spec_batch_stopped(
                            pref1,
                            base,
                            k,
                        ) by {
                            assert(keys_has(stop_pre, k) <==> spec_batch_stopped(pref, base, k));
                            assert(reg_has_key(prev, k) <==> member_after(pref, base, k));
                            assert(keys_has(pk, k) <==> (k.oui == d@.oui
                                && !crate::routing::spec_contains_uri(d@, k.uri) && reg_has_key(
                                prev,
                                k,
                            )));
                            if keys_has(stop_act_keys(acts@), k) {
                                let x = choose|x: int|
                                    0 <= x < stop_act_keys(acts@).len() && stop_act_keys(acts@)[x]
                                        == k;
                                if x < stop_pre.len() {
                                    assert(stop_pre[x] == k);
                                } else {
                                    assert(pk[x - stop_pre.len()] == k);
                                }
                            }
                            if keys_has(stop_pre, k) {
                                let x = choose|x: int|
                                    0 <= x < stop_pre.len() && stop_pre[x] == k;
                                assert(stop_act_keys(acts@)[x] == k);
                            }
                            if keys_has(pk, k) {
                                let x = choose|x: int| 0 <= x < pk.len() && pk[x] == k;
                                assert(stop_act_keys(acts@)[stop_pre.len() + x] == k);
                            }
                        }
                    }
                    i += 1;
                }
                proof {
                    assert(desc_views(descs@).subrange(0, descs@.len() as int) =~= desc_views(
                        descs@,
                    ));
                }
                self.routing_height = height;
                acts
            },
        }
    }
}

/// Whether some entry of the registry value `s` matches the routing
/// information `ri`.
pub open spec fn any_match(s: Seq<RouterEntryView>, ri: crate::routing::RoutingInfo) -> bool {
    exists|i: int| 0 <= i < s.len() && crate::routing::spec_matches(s[i].routing, ri)
}

/// The keys of the uplink actions in `acts`, in order.
pub open spec fn uplink_act_keys(acts: Seq<Action>) -> Seq<RouterKeyView>
    decreases acts.len(),
{
    if acts.len() == 0 {
        Seq::empty()
    } else {
        let rest = uplink_act_keys(acts.drop_last());
        match acts.last() {
            Action::UplinkTo { key, packet } => rest.push(key@),
            _ => rest,
        }
    }
}

/// The keys of the start actions in `acts`, in order.
pub open spec fn start_act_keys(acts: Seq<Action>) -> Seq<RouterKeyView>
    decreases acts.len(),
{
    if acts.len() == 0 {
        Seq::empty()
    } else {
        let rest = start_act_keys(acts.drop_last());
        match acts.last() {
            Action::StartRouter { key, routing } => rest.push(key@),
            _ => rest,
        }
    }
}

/// The keys of the stop actions in `acts`, in order.
pub open spec fn stop_act_keys(acts: Seq<Action>) -> Seq<RouterKeyView>
    decreases acts.len(),
{
    if acts.len() == 0 {
        Seq::empty()
    } else {
        let rest = stop_act_keys(acts.drop_last());
        match acts.last() {
            Action::StopRouter { key } => rest.push(key@),
            _ => rest,
        }
    }
}

/// Whether a batch of descriptors, applied in order to a base registry
/// value, admits the key `k` at some step: a descriptor of the key's OUI
/// lists its URI while the key was not present just before that step.
pub open spec fn spec_batch_started(
    descs: Seq<RoutingDescriptorView>,
    base: Seq<RouterEntryView>,
    k: RouterKeyView,
) -> bool
    decreases descs.len(),
{
    if descs.len() == 0 {
        false
    } else {
        let d = descs.last();
        spec_batch_started(descs.drop_last(), base, k) || (k.oui == d.oui
            && crate::routing::spec_contains_uri(d, k.uri) && !member_after(
            descs.drop_last(),
            base,
            k,
        ))
    }
}

/// Whether a batch of descriptors, applied in order to a base registry
/// value, sweeps the key `k` at some step: a descriptor of the key's OUI
/// no longer lists its URI while the key was present just before that
/// step.
pub open spec fn spec_batch_stopped(
    descs: Seq<RoutingDescriptorView>,
    base: Seq<RouterEntryView>,
    k: RouterKeyView,
) -> bool
    decreases descs.len(),
{
    if descs.len() == 0 {
        false
    } else {
        let d = descs.last();
        spec_batch_stopped(descs.drop_last(), base, k) || (k.oui == d.oui
            && !crate::routing::spec_contains_uri(d, k.uri) && member_after(
            descs.drop_last(),
            base,
            k,
        ))
    }
}

/// What one routing update does to the dispatcher. An update at or below
/// the routing watermark, or one that is not a streamed routing message,
/// changes nothing and emits nothing. A fresh update advances the
/// watermark, leaves every other field alone, reconciles the registry so
/// that a key is finally present exactly as the descriptors prescribe,
/// and emits exactly one start per admitted key and one stop per swept
/// key; every start action carries a batch descriptor admitting its key.
pub open spec fn routing_update_post(
    pre: Dispatcher,
    post: Dispatcher,
    resp: GatewayResponse,
    acts: Seq<Action>,
) -> bool {
    &&& (resp.height <= pre.routing_height ==> post == pre && acts.len() == 0)
    &&& (resp.height > pre.routing_height ==> match resp.msg {
        Some(ResponseMsg::RoutingStreamed(v)) => {
            &&& post.routing_height == resp.height
            &&& post.region == pre.region
            &&& post.region_height == pre.region_height
            &&& post.gateway_retry == pre.gateway_retry
            &&& post.gateway == pre.gateway
            &&& post.seed_gateways == pre.seed_gateways
            &&& post.default_routers == pre.default_routers
            &&& forall|k: RouterKeyView|
                #[trigger] reg_has_key(post.routers@, k) <==> member_after(
                    desc_views(v@),
                    pre.routers@,
                    k,
                )
            &&& forall|k: RouterKeyView|
                #[trigger] keys_has(start_act_keys(acts), k) <==> spec_batch_started(
                    desc_views(v@),
                    pre.routers@,
                    k,
                )
            &&& forall|k: RouterKeyView|
                #[trigger] keys_has(stop_act_keys(acts), k) <==> spec_batch_stopped(
                    desc_views(v@),
                    pre.routers@,
                    k,
                )
            &&& forall|t: int|
                0 <= t < acts.len() ==> (((#[trigger] acts[t]) matches Action::StartRouter {
                    key,
                    routing,
                } && key@.oui == routing@.oui && crate::routing::spec_contains_uri(
                    routing@,
                    key@.uri,
                ) && desc_views(v@).contains(routing@)) || acts[t] is StopRouter)
        },
        _ => post == pre && acts.len() == 0,
    })
}

/// What one region update does to the dispatcher. An update at or below
/// the region watermark, or one whose region cannot be decoded, changes
/// nothing and emits nothing. A fresh update advances the watermark,
/// replaces the cached region, leaves every other field alone, and emits
/// one region notice per admitted router, in registry order.
pub open spec fn region_update_post(
    pre: Dispatcher,
    post: Dispatcher,
    resp: GatewayResponse,
    acts: Seq<Action>,
) -> bool {
    &&& (resp.height <= pre.region_height ==> post == pre && acts.len() == 0)
    &&& (resp.height > pre.region_height ==> match resp.msg {
        Some(ResponseMsg::RegionParamsStreamed { region }) => match region_from_i32(
            region as int,
        ) {
            Some(reg) => {
                &&& post.region == reg
                &&& post.region_height == resp.height
                &&& post.routing_height == pre.routing_height
                &&& post.gateway_retry == pre.gateway_retry
                &&& post.gateway == pre.gateway
                &&& post.seed_gateways == pre.seed_gateways
                &&& post.default_routers == pre.default_routers
                &&& post.routers@ == pre.routers@
                &&& acts.len() == post.routers@.len()
                &&& forall|i: int|
                    0 <= i < acts.len() ==> ((#[trigger] acts[i])
                        matches Action::RegionChangedFor { key, region: rg } && key@
                        == post.routers@[i].key && rg == reg)
            },
            None => post == pre && acts.len() == 0,
        },
        _ => post == pre && acts.len() == 0,
    })
}

/// What one configuration update emits: the changed keys forwarded to the
/// PoC worker, or nothing for an unexpected message.
pub open spec fn config_change_acts(resp: GatewayResponse, acts: Seq<Action>) -> bool {
    match resp.msg {
        Some(ResponseMsg::ConfigUpdateStreamed { keys }) => acts.len() == 1 && (acts[0]
            matches Action::PocConfigChanged { keys: k2 } && k2 == keys),
        _ => acts.len() == 0,
    }
}

/// What one challenge notification emits: the decoded challenge forwarded
/// to the PoC worker, or nothing when the challenger is missing or the
/// message unexpected.
pub open spec fn poc_challenge_acts(resp: GatewayResponse, acts: Seq<Action>) -> bool {
    match resp.msg {
        Some(ResponseMsg::PocChallenge { challenger, block_hash, onion_key_hash }) => match challenger {
            Some(c) => acts.len() == 1 && (acts[0] matches Action::PocChallengeForward {
                challenge,
            } && challenge.challenger == c && challenge.block_hash == block_hash
                && challenge.poc_id == onion_key_hash && challenge.height == resp.height
                && challenge.challenger_sig == resp.signed_bytes),
            None => acts.len() == 0,
        },
        _ => acts.len() == 0,
    }
}

impl Dispatcher {
    /// Removes a router the shell could not construct: its entry leaves
    /// the registry so that the next routing update carrying its URI
    /// retries it.
    pub fn router_start_failed(&mut self, key: &RouterKey) -> (removed: bool)
        requires
            old(self).wf(),
        ensures
            final(self).wf(),
            removed == reg_has_key(old(self).routers@, key@),
            forall|k2: RouterKeyView|
                #[trigger] reg_has_key(final(self).routers@, k2) <==> (reg_has_key(
                    old(self).routers@,
                    k2,
                ) && k2 != key@),
            final(self).region == old(self).region,
            final(self).routing_height == old(self).routing_height,
            final(self).region_height == old(self).region_height,
            final(self).gateway_retry == old(self).gateway_retry,
            final(self).gateway == old(self).gateway,
            final(self).seed_gateways == old(self).seed_gateways,
            final(self).default_routers == old(self).default_routers,
    {
        self.routers.remove_key(key)
    }

    /// Answers one inbound port message. A region query always answers
    /// the cached region. A configuration or height query is forwarded to
    /// the attached validator, or answered as unserved while none is
    /// attached. A PoC packet is forwarded to the PoC worker. An uplink
    /// fans out to every router whose descriptor matches the packet's
    /// routing information; when none matches and default routers are
    /// configured, it goes instead to every admitted router whose URI
    /// stands in the default list.
    pub fn handle_message(&self, msg: Message) -> (acts: Vec<Action>)
        requires
            self.wf(),
        ensures
            match msg {
                Message::Region => acts@.len() == 1 && (acts@[0] matches Action::ReplyRegion {
                    region,
                } && region == self.region),
                Message::Config { keys } => if self.gateway is Some {
                    acts@.len() == 1 && (acts@[0] matches Action::QueryConfig { keys: k2 } && k2
                        == keys)
                } else {
                    acts@.len() == 1 && acts@[0] is ReplyNoService
                },
                Message::Height => if self.gateway is Some {
                    acts@.len() == 1 && acts@[0] is QueryHeight
                } else {
                    acts@.len() == 1 && acts@[0] is ReplyNoService
                },
                Message::PocPacket(p) => acts@.len() == 1 && (acts@[0]
                    matches Action::PocPacketForward { packet } && packet@ == p@),
                Message::Uplink(p) => (forall|t: int|
                    0 <= t < acts@.len() ==> ((#[trigger] acts@[t]) matches Action::UplinkTo {
                        key,
                        packet,
                    } && packet@ == p@)) && if any_match(self.routers@, p.routing) {
                    forall|kv: RouterKeyView|
                        #[trigger] keys_has(uplink_act_keys(acts@), kv)
                            <==> crate::registry::reg_key_matches(self.routers@, p.routing, kv)
                } else {
                    match self.default_routers {
                        Some(list) => forall|kv: RouterKeyView|
                            #[trigger] keys_has(uplink_act_keys(acts@), kv)
                                <==> crate::registry::reg_key_listed(self.routers@, list@, kv),
                        None => acts@.len() == 0,
                    }
                },
            },
    {
        match msg {
            Message::Region => {
                let mut acts: Vec<Action> = Vec::new();
                acts.push(Action::ReplyRegion { region: self.region });
                acts
            },
            Message::Config { keys } => {
                let mut acts: Vec<Action> = Vec::new();
                match &self.gateway {
                    Some(_) => acts.push(Action::QueryConfig { keys }),
                    None => acts.push(Action::ReplyNoService),
                }
                acts
            },
            Message::Height => {
                let mut acts: Vec<Action> = Vec::new();
                match &self.gateway {
                    Some(_) => acts.push(Action::QueryHeight),
                    None => acts.push(Action::ReplyNoService),
                }
                acts
            },
            Message::PocPacket(p) => {
                let mut acts: Vec<Action> = Vec::new();
                acts.push(Action::PocPacketForward { packet: p });
                acts
            },
            Message::Uplink(p) => self.handle_uplink(p),
        }
    }

    /// Fans an uplink packet out per the registry: to every matching
    /// router, or, when none matches and default routers are configured,
    /// to every admitted router whose URI stands in the default list.
    fn handle_uplink(&self, p: Packet) -> (acts: Vec<Action>)
        requires
            self.wf(),
        ensures
            forall|t: int|
                0 <= t < acts@.len() ==> ((#[trigger] acts@[t]) matches Action::UplinkTo {
                    key,
                    packet,
                } && packet@ == p@),
            if any_match(self.routers@, p.routing) {
                forall|kv: RouterKeyView|
                    #[trigger] keys_has(uplink_act_keys(acts@), kv)
                        <==> crate::registry::reg_key_matches(self.routers@, p.routing, kv)
            } else {
                match self.default_routers {
                    Some(list) => forall|kv: RouterKeyView|
                        #[trigger] keys_has(uplink_act_keys(acts@), kv)
                            <==> crate::registry::reg_key_listed(self.routers@, list@, kv),
                    None => acts@.len() == 0,
                }
            },
    {
        let targets = self.routers.matching_targets(&p.routing);
        if targets.len() > 0 {
            proof {
                let kv0 = crate::registry::key_views(targets@)[0];
                assert(crate::registry::reg_key_matches(self.routers@, p.routing, kv0));
                let i = choose|i: int|
                    0 <= i < self.routers@.len() && self.routers@[i].key == kv0
                        && crate::routing::spec_matches(self.routers@[i].routing, p.routing);
                assert(any_match(self.routers@, p.routing));
            }
            let acts = make_uplink_acts(&targets, &p);
            proof {
                assert forall|kv: RouterKeyView| #[trigger]
                    keys_has(uplink_act_keys(acts@), kv) <==> crate::registry::reg_key_matches(
                    self.routers@,
                    p.routing,
                    kv,
                ) by {
                    if keys_has(crate::registry::key_views(targets@), kv) {
                        let t = choose|t: int|
                            0 <= t < crate::registry::key_views(targets@).len()
                                && crate::registry::key_views(targets@)[t] == kv;
                        assert(crate::registry::reg_key_matches(self.routers@, p.routing, kv));
                    }
                    if crate::registry::reg_key_matches(self.routers@, p.routing, kv) {
                        let i = choose|i: int|
                            0 <= i < self.routers@.len() && self.routers@[i].key == kv
                                && crate::routing::spec_matches(
                                self.routers@[i].routing,
                                p.routing,
                            );
                        assert(keys_has(
                            crate::registry::key_views(targets@),
                            self.routers@[i].key,
                        ));
                    }
                }
            }
            acts
        } else {
            proof {
                assert forall|i: int|
                    0 <= i < self.routers@.len() implies !crate::routing::spec_matches(
                    (#[trigger] self.routers@[i]).routing,
                    p.routing,
                ) by {
                    if crate::routing::spec_matches(self.routers@[i].routing, p.routing) {
                        assert(keys_has(
                            crate::registry::key_views(targets@),
                            self.routers@[i].key,
                        ));
                        let t = choose|t: int|
                            0 <= t < crate::registry::key_views(targets@).len()
                                && crate::registry::key_views(targets@)[t]
                                == self.routers@[i].key;
                    }
                }
                assert(!any_match(self.routers@, p.routing));
            }
            match &self.default_routers {
                Some(list) => {
                    let listed = self.routers.listed_targets(list);
                    let acts = make_uplink_acts(&listed, &p);
                    proof {
                        assert forall|kv: RouterKeyView| #[trigger]
                            keys_has(uplink_act_keys(acts@), kv)
                                <==> crate::registry::reg_key_listed(self.routers@, list@, kv) by {
                            if keys_has(crate::registry::key_views(listed@), kv) {
                                let t = choose|t: int|
                                    0 <= t < crate::registry::key_views(listed@).len()
                                        && crate::registry::key_views(listed@)[t] == kv;
                                assert(crate::registry::reg_key_listed(self.routers@, list@, kv));
                            }
                            if crate::registry::reg_key_listed(self.routers@, list@, kv) {
                                let i = choose|i: int|
                                    0 <= i < self.routers@.len() && self.routers@[i].key == kv
                                        && uri_list_has(list@, self.routers@[i].key.uri);
                                assert(keys_has(
                                    crate::registry::key_views(listed@),
                                    self.routers@[i].key,
                                ));
                            }
                        }
                    }
                    acts
                },
                None => Vec::new(),
            }
        }
    }

    /// Routes one screened stream item per its stream kind.
    pub fn handle_stream_item(&mut self, item: crate::response::StreamItem) -> (acts: Vec<Action>)
        requires
            old(self).wf(),
        ensures
            final(self).wf(),
            final(self).gateway == old(self).gateway,
            final(self).gateway_retry == old(self).gateway_retry,
            final(self).seed_gateways == old(self).seed_gateways,
            final(self).default_routers == old(self).default_routers,
            match item.kind {
                crate::response::StreamKind::Routing => routing_update_post(
                    *old(self),
                    *final(self),
                    item.response,
                    acts@,
                ),
                crate::response::StreamKind::Region => region_update_post(
                    *old(self),
                    *final(self),
                    item.response,
                    acts@,
                ),
                crate::response::StreamKind::Config => *final(self) == *old(self)
                    && config_change_acts(item.response, acts@),
                crate::response::StreamKind::Poc => *final(self) == *old(self)
                    && poc_challenge_acts(item.response, acts@),
            },
    {
        match item.kind {
            crate::response::StreamKind::Routing => self.handle_routing_update(item.response),
            crate::response::StreamKind::Region => {
                let acts = self.handle_region_update(&item.response);
                acts
            },
            crate::response::StreamKind::Config => self.handle_config_change(item.response),
            crate::response::StreamKind::Poc => self.handle_poc_challenge(item.response),
        }
    }
}

/// Builds one uplink action per target key, each carrying its own copy of
/// the packet, in target order.
fn make_uplink_acts(ks: &Vec<RouterKey>, p: &Packet) -> (acts: Vec<Action>)
    ensures
        uplink_act_keys(acts@) == crate::registry::key_views(ks@),
        forall|t: int|
            0 <= t < acts@.len() ==> ((#[trigger] acts@[t]) matches Action::UplinkTo {
                key,
                packet,
            } && packet@ == p@),
{
    let mut acts: Vec<Action> = Vec::new();
    let mut i: usize = 0;
    proof {
        assert(uplink_act_keys(acts@) =~= crate::registry::key_views(ks@).subrange(0, 0));
    }
    while i < ks.len()
        invariant
            i <= ks@.len(),
            acts@.len() == i,
            uplink_act_keys(acts@) =~= crate::registry::key_views(ks@).subrange(0, i as int),
            forall|t: int|
                0 <= t < i ==> ((#[trigger] acts@[t]) matches Action::UplinkTo { key, packet }
                    && packet@ == p@),
        decreases ks@.len() - i,
    {
        let ghost pre = acts@;
        acts.push(Action::UplinkTo { key: ks[i].duplicate(), packet: p.duplicate() });
        proof {
            assert(acts@.drop_last() =~= pre);
            assert(uplink_act_keys(acts@) =~= uplink_act_keys(pre).push(ks@[i as int]@));
            assert(crate::registry::key_views(ks@).subrange(0, i as int + 1) =~= crate::registry::key_views(
                ks@,
            ).subrange(0, i as int).push(crate::registry::key_views(ks@)[i as int]));
        }
        i += 1;
    }
    proof {
        assert(crate::registry::key_views(ks@).subrange(0, ks@.len() as int)
            =~= crate::registry::key_views(ks@));
    }
    acts
}

/// The element-wise values of a descriptor list.
pub open spec fn desc_views(v: Seq<RoutingDescriptor>) -> Seq<RoutingDescriptorView> {
    v.map_values(|d: RoutingDescriptor| d@)
}

/// Whether the key `k` is present after a batch of descriptors has been
/// applied, in order, to a base registry value: the last descriptor of the
/// key's OUI decides by its URI list; a key of an OUI no descriptor
/// carries stays as it was.
pub open spec fn member_after(
    descs: Seq<RoutingDescriptorView>,
    base: Seq<RouterEntryView>,
    k: RouterKeyView,
) -> bool
    decreases descs.len(),
{
    if descs.len() == 0 {
        reg_has_key(base, k)
    } else {
        let d = descs.last();
        if k.oui == d.oui {
            crate::routing::spec_contains_uri(d, k.uri)
        } else {
            member_after(descs.drop_last(), base, k)
        }
    }
}

} // verus!
