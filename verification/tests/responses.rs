use gateway_dispatcher::error::DispatchError;
use gateway_dispatcher::keyed_uri::KeyedUri;
use gateway_dispatcher::region::Region;
use gateway_dispatcher::response::{
    challenge_check_response, close_sc_response, config_response, height_response,
    is_active_response, poc_challenger_response, screen_stream_item, send_report_response,
    validators_response, version_response, BlockchainVar, Challenge, ChallengeCheck,
    GatewayResponse, ResponseMsg, StreamKind,
};
use gateway_dispatcher::routing::RoutingDescriptor;

fn resp(height: u64, msg: Option<ResponseMsg>) -> GatewayResponse {
    GatewayResponse { height, block_age: 0, signed_bytes: vec![9, 9, 9], msg }
}

fn uri(tag: u8) -> KeyedUri {
    KeyedUri::new(vec![tag], format!("http://validator{}.example", tag))
}

#[test]
fn routings_decodes_expected_variant() {
    let d = RoutingDescriptor { oui: 7, uris: vec![uri(1)], subnets: vec![], joins: vec![] };
    let r = resp(5, Some(ResponseMsg::RoutingStreamed(vec![d])));
    let v = r.routings().expect("routing variant must decode");
    assert_eq!(v.len(), 1);
    assert_eq!(v[0].oui, 7);
}

#[test]
fn routings_rejects_other_variants() {
    let r = resp(5, Some(ResponseMsg::SuccessResp));
    assert!(matches!(r.routings(), Err(DispatchError::Decode)));
    let r2 = resp(5, None);
    assert!(matches!(r2.routings(), Err(DispatchError::Decode)));
}

#[test]
fn region_decodes_wire_integer() {
    let r = resp(5, Some(ResponseMsg::RegionParamsStreamed { region: 1 }));
    assert_eq!(r.region().unwrap(), Region::Eu868);
    let bad = resp(5, Some(ResponseMsg::RegionParamsStreamed { region: 99 }));
    assert!(matches!(bad.region(), Err(DispatchError::Custom(_))));
    let wrong = resp(5, Some(ResponseMsg::SuccessResp));
    assert!(matches!(wrong.region(), Err(DispatchError::Decode)));
}

#[test]
fn config_update_yields_keys() {
    let r = resp(
        5,
        Some(ResponseMsg::ConfigUpdateStreamed { keys: vec!["poc_version".to_string()] }),
    );
    assert_eq!(r.config_update().unwrap(), vec!["poc_version".to_string()]);
}

#[test]
fn challenge_try_from_maps_every_field() {
    let r = GatewayResponse {
        height: 77,
        block_age: 3,
        signed_bytes: vec![1, 2, 3, 4],
        msg: Some(ResponseMsg::PocChallenge {
            challenger: Some(uri(9)),
            block_hash: vec![5, 6],
            onion_key_hash: vec![7, 8],
        }),
    };
    let c = Challenge::try_from(r).expect("challenge must decode");
    assert_eq!(c.challenger.pubkey, vec![9]);
    assert_eq!(c.block_hash, vec![5, 6]);
    assert_eq!(c.poc_id, vec![7, 8]);
    assert_eq!(c.height, 77);
    assert_eq!(c.challenger_sig, vec![1, 2, 3, 4]);
}

#[test]
fn challenge_try_from_needs_challenger() {
    let r = resp(
        5,
        Some(ResponseMsg::PocChallenge {
            challenger: None,
            block_hash: vec![],
            onion_key_hash: vec![],
        }),
    );
    assert!(matches!(Challenge::try_from(r), Err(DispatchError::NoService)));
    let wrong = resp(5, Some(ResponseMsg::SuccessResp));
    assert!(matches!(Challenge::try_from(wrong), Err(DispatchError::Decode)));
}

#[test]
fn validators_response_decodes() {
    let r = resp(5, Some(ResponseMsg::ValidatorsResp(vec![uri(1), uri(2)])));
    let v = validators_response(r).unwrap();
    assert_eq!(v.len(), 2);
    assert!(matches!(
        validators_response(resp(5, None)),
        Err(DispatchError::Decode)
    ));
}

#[test]
fn version_response_keeps_unknown_and_zero_apart() {
    let known = resp(5, Some(ResponseMsg::Version { version: 0 }));
    assert_eq!(version_response(known).unwrap(), Some(0));
    let unknown = resp(5, None);
    assert_eq!(version_response(unknown).unwrap(), None);
    let wrong = resp(5, Some(ResponseMsg::SuccessResp));
    assert!(matches!(version_response(wrong), Err(DispatchError::Decode)));
}

#[test]
fn config_response_decodes() {
    let var = BlockchainVar {
        name: "poc_version".to_string(),
        kind: "int".to_string(),
        value: vec![52],
    };
    let r = resp(5, Some(ResponseMsg::ConfigResp(vec![var])));
    let v = config_response(r).unwrap();
    assert_eq!(v.len(), 1);
    assert_eq!(v[0].name, "poc_version");
}

#[test]
fn height_response_reads_envelope() {
    let r = GatewayResponse { height: 42, block_age: 17, signed_bytes: vec![], msg: None };
    assert_eq!(height_response(&r), (42, 17));
}

#[test]
fn challenge_check_target_and_queued() {
    let t = resp(5, Some(ResponseMsg::PocCheckTargetResp { target: true, onion: vec![1] }));
    assert!(matches!(
        challenge_check_response(t),
        Ok(ChallengeCheck::Target(o)) if o == vec![1]
    ));
    let n = resp(5, Some(ResponseMsg::PocCheckTargetResp { target: false, onion: vec![] }));
    assert!(matches!(challenge_check_response(n), Ok(ChallengeCheck::NotTarget)));
    let q = resp(33, Some(ResponseMsg::ErrorResp { error: b"queued_poc".to_vec() }));
    assert!(matches!(challenge_check_response(q), Ok(ChallengeCheck::Queued(33))));
    let e = resp(33, Some(ResponseMsg::ErrorResp { error: b"other".to_vec() }));
    assert!(matches!(challenge_check_response(e), Err(DispatchError::Decode)));
}

#[test]
fn poc_challenger_response_decodes() {
    let r = resp(5, Some(ResponseMsg::PublicRoute(uri(3))));
    let u = poc_challenger_response(r).unwrap().unwrap();
    assert_eq!(u.pubkey, vec![3]);
}

#[test]
fn send_report_response_outcomes() {
    assert!(send_report_response(resp(5, Some(ResponseMsg::SuccessResp))).is_ok());
    assert!(matches!(
        send_report_response(resp(5, Some(ResponseMsg::ErrorResp { error: vec![] }))),
        Err(DispatchError::Rpc)
    ));
    assert!(matches!(
        send_report_response(resp(5, None)),
        Err(DispatchError::Decode)
    ));
}

#[test]
fn close_sc_response_outcomes() {
    assert!(close_sc_response(resp(5, Some(ResponseMsg::SuccessResp))).is_ok());
    assert!(matches!(
        close_sc_response(resp(5, Some(ResponseMsg::ErrorResp { error: vec![1] }))),
        Err(DispatchError::Rpc)
    ));
    assert!(matches!(
        close_sc_response(resp(5, None)),
        Err(DispatchError::Decode)
    ));
}

#[test]
fn is_active_checks_echoed_identity() {
    let id = vec![1u8, 2];
    let owner = vec![3u8];
    let good = resp(
        5,
        Some(ResponseMsg::IsActiveResp { sc_id: vec![1, 2], sc_owner: vec![3], active: true }),
    );
    assert_eq!(is_active_response(good, &id, &owner).unwrap(), true);
    let mismatched = resp(
        5,
        Some(ResponseMsg::IsActiveResp { sc_id: vec![9], sc_owner: vec![3], active: true }),
    );
    match is_active_response(mismatched, &id, &owner) {
        Err(DispatchError::Custom(m)) => assert_eq!(m, "mismatched state channel id and owner"),
        other => panic!("expected a custom error, got {:?}", other),
    }
}

#[test]
fn unverified_stream_payload_is_rejected() {
    let ok = screen_stream_item(StreamKind::Routing, resp(5, None), true);
    assert!(ok.is_ok());
    let bad = screen_stream_item(StreamKind::Routing, resp(5, None), false);
    assert!(matches!(bad, Err(DispatchError::Verification)));
}
