use gateway_dispatcher::dispatcher::{
    backoff_wait, check_gateway, choose_validator, make_height_response, select_seed,
    version_or_unknown, Action, Dispatcher, Message,
};
use gateway_dispatcher::error::DispatchError;
use gateway_dispatcher::keyed_uri::KeyedUri;
use gateway_dispatcher::region::Region;
use gateway_dispatcher::response::{GatewayResponse, ResponseMsg};
use gateway_dispatcher::routing::{DevaddrRange, Packet, RoutingDescriptor, RoutingInfo};

fn ku(tag: u8) -> KeyedUri {
    KeyedUri::new(vec![tag], format!("http://router{}.example", tag))
}

fn desc(oui: u32, uris: Vec<KeyedUri>, subnets: Vec<DevaddrRange>) -> RoutingDescriptor {
    RoutingDescriptor { oui, uris, subnets, joins: vec![] }
}

fn routing_resp(height: u64, descs: Vec<RoutingDescriptor>) -> GatewayResponse {
    GatewayResponse {
        height,
        block_age: 0,
        signed_bytes: vec![],
        msg: Some(ResponseMsg::RoutingStreamed(descs)),
    }
}

fn region_resp(height: u64, region: i32) -> GatewayResponse {
    GatewayResponse {
        height,
        block_age: 0,
        signed_bytes: vec![],
        msg: Some(ResponseMsg::RegionParamsStreamed { region }),
    }
}

fn fresh(default_routers: Option<Vec<KeyedUri>>) -> Dispatcher {
    Dispatcher::new(Region::Us915, vec![ku(0)], default_routers)
}

fn started_keys(acts: &[Action]) -> Vec<(u32, String)> {
    let mut v = Vec::new();
    for a in acts {
        if let Action::StartRouter { key, .. } = a {
            v.push((key.oui, key.uri.uri.clone()));
        }
    }
    v
}

fn stopped_keys(acts: &[Action]) -> Vec<(u32, String)> {
    let mut v = Vec::new();
    for a in acts {
        if let Action::StopRouter { key } = a {
            v.push((key.oui, key.uri.uri.clone()));
        }
    }
    v
}

#[test]
fn routing_add_and_remove() {
    let mut d = fresh(None);
    let acts = d.handle_routing_update(routing_resp(10, vec![desc(1, vec![ku(1), ku(2)], vec![])]));
    assert_eq!(d.routing_height, 10);
    assert!(d.routers.contains_key(1, &ku(1)));
    assert!(d.routers.contains_key(1, &ku(2)));
    assert_eq!(d.routers.len(), 2);
    let started = started_keys(&acts);
    assert_eq!(started.len(), 2);
    assert!(stopped_keys(&acts).is_empty());

    let acts2 = d.handle_routing_update(routing_resp(11, vec![desc(1, vec![ku(2), ku(3)], vec![])]));
    assert_eq!(d.routing_height, 11);
    assert!(!d.routers.contains_key(1, &ku(1)));
    assert!(d.routers.contains_key(1, &ku(2)));
    assert!(d.routers.contains_key(1, &ku(3)));
    assert_eq!(d.routers.len(), 2);
    let started2 = started_keys(&acts2);
    assert_eq!(started2, vec![(1, ku(3).uri)]);
    let stopped2 = stopped_keys(&acts2);
    assert_eq!(stopped2, vec![(1, ku(1).uri)]);
}

#[test]
fn routing_update_leaves_other_ouis_alone() {
    let mut d = fresh(None);
    d.handle_routing_update(routing_resp(10, vec![desc(1, vec![ku(1)], vec![])]));
    d.handle_routing_update(routing_resp(11, vec![desc(2, vec![ku(2)], vec![])]));
    assert!(d.routers.contains_key(1, &ku(1)));
    assert!(d.routers.contains_key(2, &ku(2)));
}

#[test]
fn routing_duplicate_uris_insert_once() {
    let mut d = fresh(None);
    let acts = d.handle_routing_update(routing_resp(10, vec![desc(1, vec![ku(1), ku(1)], vec![])]));
    assert_eq!(d.routers.len(), 1);
    assert_eq!(started_keys(&acts).len(), 1);
}

#[test]
fn stale_routing_update_changes_nothing() {
    let mut d = fresh(None);
    d.handle_routing_update(routing_resp(10, vec![desc(1, vec![ku(1)], vec![])]));
    let acts = d.handle_routing_update(routing_resp(10, vec![desc(1, vec![ku(9)], vec![])]));
    assert!(acts.is_empty());
    assert_eq!(d.routing_height, 10);
    assert!(d.routers.contains_key(1, &ku(1)));
    assert!(!d.routers.contains_key(1, &ku(9)));
}

#[test]
fn stale_region_update_changes_nothing() {
    let mut d = fresh(None);
    let first = d.handle_region_update(&region_resp(50, 1));
    assert_eq!(d.region_height, 50);
    assert_eq!(d.region, Region::Eu868);
    assert!(first.is_empty());

    let acts = d.handle_region_update(&region_resp(50, 2));
    assert!(acts.is_empty());
    assert_eq!(d.region, Region::Eu868);
    assert_eq!(d.region_height, 50);
}

#[test]
fn region_update_notifies_routers() {
    let mut d = fresh(None);
    d.handle_routing_update(routing_resp(10, vec![desc(1, vec![ku(1), ku(2)], vec![])]));
    let acts = d.handle_region_update(&region_resp(60, 2));
    assert_eq!(d.region, Region::Eu433);
    assert_eq!(d.region_height, 60);
    assert_eq!(acts.len(), 2);
    for a in &acts {
        assert!(matches!(a, Action::RegionChangedFor { region: Region::Eu433, .. }));
    }
}

#[test]
fn undecodable_region_update_is_dropped() {
    let mut d = fresh(None);
    let acts = d.handle_region_update(&region_resp(60, 99));
    assert!(acts.is_empty());
    assert_eq!(d.region, Region::Us915);
    assert_eq!(d.region_height, 0);
}

#[test]
fn seed_to_attached() {
    let seed = select_seed(&vec![ku(0)]).expect("one seed must be picked");
    assert_eq!(seed.uri, ku(0).uri);
    let found = choose_validator(&vec![ku(5)]).expect("one validator must be picked");
    assert_eq!(found.uri, ku(5).uri);

    let mut d = fresh(None);
    d.handle_routing_update(routing_resp(10, vec![desc(1, vec![ku(1), ku(2)], vec![])]));
    let acts = d.attach_gateway(found);
    assert!(d.gateway.is_some());
    assert_eq!(acts.len(), 2);
    for a in &acts {
        assert!(matches!(a, Action::GatewayChangedFor { attached: true, .. }));
    }
}

#[test]
fn select_seed_rejects_empty_list() {
    match select_seed(&vec![]) {
        Err(DispatchError::Custom(m)) => assert_eq!(m, "empty uri list"),
        other => panic!("expected a custom error, got {:?}", other),
    }
    match choose_validator(&vec![]) {
        Err(DispatchError::Custom(m)) => assert_eq!(m, "empty gateway list"),
        other => panic!("expected a custom error, got {:?}", other),
    }
}

#[test]
fn liveness_failure_demotes_to_backoff() {
    let mut d = fresh(None);
    d.handle_routing_update(routing_resp(10, vec![desc(1, vec![ku(1)], vec![])]));
    let acts = d.attach_gateway(ku(5));
    assert_eq!(acts.len(), 1);

    assert!(matches!(
        check_gateway(700),
        Err(DispatchError::GatewayCheck { block_age: 700, max_age: 600 })
    ));
    let healthy = d.handle_gateway_check(Some((1000, 700)));
    assert!(!healthy);

    let (notices, sleep) = d.prepare_gateway_change();
    assert_eq!(d.gateway_retry, 1);
    assert_eq!(sleep, 5);
    assert!(d.gateway.is_none());
    assert_eq!(d.routing_height, 0);
    assert_eq!(d.region_height, 0);
    assert_eq!(notices.len(), 1);
    assert!(matches!(
        notices[0],
        Action::GatewayChangedFor { attached: false, .. }
    ));
}

#[test]
fn healthy_check_resets_retry() {
    let mut d = fresh(None);
    let (_, _) = d.prepare_gateway_change();
    assert_eq!(d.gateway_retry, 1);
    assert!(d.handle_gateway_check(Some((1000, 30))));
    assert_eq!(d.gateway_retry, 0);
    assert!(!d.handle_gateway_check(None));
}

#[test]
fn backoff_wait_doubles_then_saturates() {
    assert_eq!(backoff_wait(1), 5);
    assert_eq!(backoff_wait(2), 10);
    assert_eq!(backoff_wait(3), 20);
    assert_eq!(backoff_wait(9), 1280);
    assert_eq!(backoff_wait(10), 1800);
    assert_eq!(backoff_wait(11), 1800);
    assert_eq!(backoff_wait(100), 1800);
}

fn uplink_keys(acts: &[Action]) -> Vec<(u32, String)> {
    let mut v = Vec::new();
    for a in acts {
        if let Action::UplinkTo { key, .. } = a {
            v.push((key.oui, key.uri.uri.clone()));
        }
    }
    v
}

fn two_router_dispatcher(default_routers: Option<Vec<KeyedUri>>) -> Dispatcher {
    let mut d = fresh(default_routers);
    // OUI 1 serves addresses 0..16 through router 1; OUI 2 serves
    // addresses 16..32 through router 2.
    d.handle_routing_update(routing_resp(
        10,
        vec![
            desc(1, vec![ku(1)], vec![DevaddrRange { base: 0, size: 16 }]),
            desc(2, vec![ku(2)], vec![DevaddrRange { base: 16, size: 16 }]),
        ],
    ));
    d
}

#[test]
fn uplink_goes_to_matching_router_only() {
    let d = two_router_dispatcher(Some(vec![ku(1)]));
    let pkt = Packet { routing: RoutingInfo::Devaddr(20), payload: vec![1] };
    let acts = d.handle_message(Message::Uplink(pkt));
    assert_eq!(uplink_keys(&acts), vec![(2, ku(2).uri)]);
}

#[test]
fn unmatched_uplink_goes_to_default_routers() {
    let d = two_router_dispatcher(Some(vec![ku(1)]));
    let pkt = Packet { routing: RoutingInfo::Devaddr(100), payload: vec![1] };
    let acts = d.handle_message(Message::Uplink(pkt));
    assert_eq!(uplink_keys(&acts), vec![(1, ku(1).uri)]);
}

#[test]
fn unmatched_uplink_without_defaults_is_dropped() {
    let d = two_router_dispatcher(None);
    let pkt = Packet { routing: RoutingInfo::Devaddr(100), payload: vec![1] };
    let acts = d.handle_message(Message::Uplink(pkt));
    assert!(acts.is_empty());
}

#[test]
fn query_while_detached_answers_no_service() {
    let d = two_router_dispatcher(Some(vec![ku(1)]));
    assert!(d.gateway.is_none());

    let acts = d.handle_message(Message::Config { keys: vec!["k".to_string()] });
    assert_eq!(acts.len(), 1);
    assert!(matches!(acts[0], Action::ReplyNoService));

    let acts2 = d.handle_message(Message::Height);
    assert!(matches!(acts2[0], Action::ReplyNoService));

    let acts3 = d.handle_message(Message::Region);
    assert!(matches!(acts3[0], Action::ReplyRegion { region: Region::Us915 }));

    // An uplink is still delivered while detached.
    let pkt = Packet { routing: RoutingInfo::Devaddr(3), payload: vec![1] };
    let acts4 = d.handle_message(Message::Uplink(pkt));
    assert_eq!(uplink_keys(&acts4), vec![(1, ku(1).uri)]);
}

#[test]
fn query_while_attached_is_forwarded() {
    let mut d = two_router_dispatcher(None);
    d.attach_gateway(ku(5));

    let acts = d.handle_message(Message::Config { keys: vec!["k".to_string()] });
    assert!(matches!(&acts[0], Action::QueryConfig { keys } if keys == &vec!["k".to_string()]));

    let acts2 = d.handle_message(Message::Height);
    assert!(matches!(acts2[0], Action::QueryHeight));

    let pkt = Packet { routing: RoutingInfo::Devaddr(3), payload: vec![7] };
    let acts3 = d.handle_message(Message::PocPacket(pkt));
    assert!(matches!(&acts3[0], Action::PocPacketForward { packet } if packet.payload == vec![7]));
}

#[test]
fn height_reply_assembly() {
    assert_eq!(version_or_unknown(Ok(Some(3))), Some(3));
    assert_eq!(version_or_unknown(Ok(None)), None);
    assert_eq!(version_or_unknown(Err(DispatchError::Rpc)), None);
    let r = make_height_response(&ku(5), Some(3), 1000, 30);
    assert_eq!(r.gateway.uri, ku(5).uri);
    assert_eq!(r.height, 1000);
    assert_eq!(r.block_age, 30);
    assert_eq!(r.gateway_version, Some(3));
}

#[test]
fn failed_router_start_is_forgotten() {
    let mut d = fresh(None);
    let acts = d.handle_routing_update(routing_resp(10, vec![desc(1, vec![ku(1)], vec![])]));
    let key = match &acts[0] {
        Action::StartRouter { key, .. } => key.duplicate(),
        other => panic!("expected a start action, got {:?}", other),
    };
    assert!(d.router_start_failed(&key));
    assert!(!d.routers.contains_key(1, &ku(1)));
    // The next routing update above the watermark retries the router.
    let acts2 = d.handle_routing_update(routing_resp(11, vec![desc(1, vec![ku(1)], vec![])]));
    assert_eq!(started_keys(&acts2).len(), 1);
    assert!(d.routers.contains_key(1, &ku(1)));
}

#[test]
fn uplink_matches_join_request_by_eui() {
    let mut d = fresh(None);
    let descriptor = RoutingDescriptor {
        oui: 3,
        uris: vec![ku(3)],
        subnets: vec![],
        joins: vec![gateway_dispatcher::routing::EuiPair { app: 10, dev: 20 }],
    };
    d.handle_routing_update(routing_resp(10, vec![descriptor]));
    let hit = Packet { routing: RoutingInfo::Eui { app: 10, dev: 20 }, payload: vec![] };
    assert_eq!(uplink_keys(&d.handle_message(Message::Uplink(hit))), vec![(3, ku(3).uri)]);
    let miss = Packet { routing: RoutingInfo::Eui { app: 10, dev: 21 }, payload: vec![] };
    assert!(d.handle_message(Message::Uplink(miss)).is_empty());
}

#[test]
fn config_change_and_poc_challenge_forwarding() {
    let d = fresh(None);
    let update = GatewayResponse {
        height: 5,
        block_age: 0,
        signed_bytes: vec![],
        msg: Some(ResponseMsg::ConfigUpdateStreamed { keys: vec!["poc_version".to_string()] }),
    };
    let acts = d.handle_config_change(update);
    assert!(matches!(
        &acts[0],
        Action::PocConfigChanged { keys } if keys == &vec!["poc_version".to_string()]
    ));

    let challenge = GatewayResponse {
        height: 8,
        block_age: 0,
        signed_bytes: vec![4, 4],
        msg: Some(ResponseMsg::PocChallenge {
            challenger: Some(ku(9)),
            block_hash: vec![1],
            onion_key_hash: vec![2],
        }),
    };
    let acts2 = d.handle_poc_challenge(challenge);
    assert!(matches!(
        &acts2[0],
        Action::PocChallengeForward { challenge } if challenge.challenger_sig == vec![4, 4]
    ));
}
