use crate::error::DispatchError;
use crate::keyed_uri::KeyedUri;
use crate::region::{region_from_i32, Region};
use crate::routing::RoutingDescriptor;
use vstd::prelude::*;

verus! {

/// A chain variable from a configuration response: its name, its type tag
/// and its value bytes.
#[derive(Debug)]
pub struct BlockchainVar {
    pub name: String,
    pub kind: String,
    pub value: Vec<u8>,
}

/// One response from a validator, after wire decoding and before any
/// trust is placed in it: the envelope's height and block age, the
/// serialized form of the whole envelope (a PoC challenge's notifier
/// signature is exactly these bytes), and the decoded message variant,
/// `None` when the envelope carried no message.
#[derive(Debug)]
pub struct GatewayResponse {
    pub height: u64,
    pub block_age: u64,
    pub signed_bytes: Vec<u8>,
    pub msg: Option<ResponseMsg>,
}

/// The message variants a validator response can carry.
#[derive(Debug)]
pub enum ResponseMsg {
    RoutingStreamed(Vec<RoutingDescriptor>),
    RegionParamsStreamed { region: i32 },
    ConfigUpdateStreamed { keys: Vec<String> },
    PocChallenge { challenger: Option<KeyedUri>, block_hash: Vec<u8>, onion_key_hash: Vec<u8> },
    ScFollowStreamed { sc_id: Vec<u8>, sc_owner: Vec<u8> },
    ConfigResp(Vec<BlockchainVar>),
    ValidatorsResp(Vec<KeyedUri>),
    IsActiveResp { sc_id: Vec<u8>, sc_owner: Vec<u8>, active: bool },
    PocCheckTargetResp { target: bool, onion: Vec<u8> },
    ErrorResp { error: Vec<u8> },
    Version { version: u64 },
    SuccessResp,
    PublicRoute(KeyedUri),
}

/// A PoC challenge, derived from a signed challenge notification: the
/// challenger's identity, the challenge id, the block hash, the serialized
/// envelope standing as the challenger's signature, and the height.
#[derive(Debug)]
pub struct Challenge {
    pub challenger: KeyedUri,
    pub poc_id: Vec<u8>,
    pub block_hash: Vec<u8>,
    pub challenger_sig: Vec<u8>,
    pub height: u64,
}

/// The outcome of a challenge-target check.
#[derive(Debug)]
pub enum ChallengeCheck {
    NotTarget,
    Target(Vec<u8>),
    Queued(u64),
}

/// The four server-push stream kinds opened against a validator.
#[derive(Clone, Copy, Debug, PartialEq, Eq, Hash, Structural)]
pub enum StreamKind {
    Routing,
    Region,
    Config,
    Poc,
}

/// A stream item admitted into the dispatcher: its stream kind and its
/// verified response.
#[derive(Debug)]
pub struct StreamItem {
    pub kind: StreamKind,
    pub response: GatewayResponse,
}

/// Screens one yielded stream message against its signature check: only a
/// message whose envelope signature verified is admitted, so every stream
/// payload the dispatcher accepts was verified. A failed check surfaces as
/// a verification error, which terminates the attachment.
pub fn screen_stream_item(kind: StreamKind, response: GatewayResponse, verified: bool) -> (r:
    Result<StreamItem, DispatchError>)
    ensures
        r is Ok <==> verified,
        verified ==> (r matches Ok(it) && it.kind == kind && it.response == response),
        !verified ==> (r matches Err(e) && e is Verification),
{
    if verified {
        Ok(StreamItem { kind, response })
    } else {
        Err(DispatchError::Verification)
    }
}

/// Screens one verified-or-not response: only a response whose envelope
/// signature verified is handed on; a failed check surfaces as a
/// verification error.
pub fn screen_response(response: GatewayResponse, verified: bool) -> (r: Result<
    GatewayResponse,
    DispatchError,
>)
    ensures
        r is Ok <==> verified,
        verified ==> (r matches Ok(x) && x == response),
        !verified ==> (r matches Err(e) && e is Verification),
{
    if verified {
        Ok(response)
    } else {
        Err(DispatchError::Verification)
    }
}

impl GatewayResponse {
    /// The height carried by the response envelope.
    pub fn height(&self) -> (h: u64)
        ensures
            h == self.height,
    {
        self.height
    }

    /// The routing descriptors of a streamed routing update; any other
    /// variant is an unexpected message.
    pub fn routings(self) -> (r: Result<Vec<RoutingDescriptor>, DispatchError>)
        ensures
            match self.msg {
                Some(ResponseMsg::RoutingStreamed(v)) => r matches Ok(x) && x == v,
                _ => r matches Err(e) && e is Decode,
            },
    {
        match self.msg {
            Some(ResponseMsg::RoutingStreamed(v)) => Ok(v),
            _ => Err(DispatchError::Decode),
        }
    }

    /// The region of a streamed region-parameters update, decoded from its
    /// wire integer; any other variant is an unexpected message.
    pub fn region(&self) -> (r: Result<Region, DispatchError>)
        ensures
            match self.msg {
                Some(ResponseMsg::RegionParamsStreamed { region }) => match region_from_i32(
                    region as int,
                ) {
                    Some(reg) => r matches Ok(x) && x == reg,
                    None => r matches Err(e) && e matches DispatchError::Custom(m) && m@
                        == "unsupported region "@ + crate::region::decimal_str_signed(
                        region as int,
                    ),
                },
                _ => r matches Err(e) && e is Decode,
            },
    {
        match &self.msg {
            Some(ResponseMsg::RegionParamsStreamed { region }) => Region::from_i32(*region),
            _ => Err(DispatchError::Decode),
        }
    }

    /// The changed keys of a streamed configuration update; any other
    /// variant is an unexpected message.
    pub fn config_update(self) -> (r: Result<Vec<String>, DispatchError>)
        ensures
            match self.msg {
                Some(ResponseMsg::ConfigUpdateStreamed { keys }) => r matches Ok(x) && x == keys,
                _ => r matches Err(e) && e is Decode,
            },
    {
        match self.msg {
            Some(ResponseMsg::ConfigUpdateStreamed { keys }) => Ok(keys),
            _ => Err(DispatchError::Decode),
        }
    }

    /// The id and owner of a streamed state-channel follow message; any
    /// other variant is an unexpected message.
    pub fn state_channel_response(self) -> (r: Result<(Vec<u8>, Vec<u8>), DispatchError>)
        ensures
            match self.msg {
                Some(ResponseMsg::ScFollowStreamed { sc_id, sc_owner }) => r matches Ok(x) && x.0
                    == sc_id && x.1 == sc_owner,
                _ => r matches Err(e) && e is Decode,
            },
    {
        match self.msg {
            Some(ResponseMsg::ScFollowStreamed { sc_id, sc_owner }) => Ok((sc_id, sc_owner)),
            _ => Err(DispatchError::Decode),
        }
    }
}

impl Challenge {
    /// Derives a challenge from a signed PoC notification: the challenger
    /// must be present, the challenge id is the onion key hash, and the
    /// challenger signature is the serialized form of the whole envelope.
    /// A notification without a challenger fails as unserved; any other
    /// variant is an unexpected message.
    pub fn try_from(value: GatewayResponse) -> (r: Result<Challenge, DispatchError>)
        ensures
            match value.msg {
                Some(
                    ResponseMsg::PocChallenge { challenger, block_hash, onion_key_hash },
                ) => match challenger {
                    Some(c) => r matches Ok(ch) && ch.challenger == c && ch.block_hash
                        == block_hash && ch.poc_id == onion_key_hash && ch.height == value.height
                        && ch.challenger_sig == value.signed_bytes,
                    None => r matches Err(e) && e is NoService,
                },
                _ => r matches Err(e) && e is Decode,
            },
    {
        match value.msg {
            Some(ResponseMsg::PocChallenge { challenger, block_hash, onion_key_hash }) => {
                match challenger {
                    Some(c) => Ok(
                        Challenge {
                            challenger: c,
                            poc_id: onion_key_hash,
                            block_hash,
                            challenger_sig: value.signed_bytes,
                            height: value.height,
                        },
                    ),
                    None => Err(DispatchError::NoService),
                }
            },
            _ => Err(DispatchError::Decode),
        }
    }
}

/// The validators of a discovery response; an empty or unexpected message
/// is a decode error.
pub fn validators_response(resp: GatewayResponse) -> (r: Result<Vec<KeyedUri>, DispatchError>)
    ensures
        match resp.msg {
            Some(ResponseMsg::ValidatorsResp(v)) => r matches Ok(x) && x == v,
            _ => r matches Err(e) && e is Decode,
        },
{
    match resp.msg {
        Some(ResponseMsg::ValidatorsResp(v)) => Ok(v),
        _ => Err(DispatchError::Decode),
    }
}

/// The version of a version response; an envelope without a message means
/// the validator knows no version, and any other variant is an unexpected
/// message.
pub fn version_response(resp: GatewayResponse) -> (r: Result<Option<u64>, DispatchError>)
    ensures
        match resp.msg {
            Some(ResponseMsg::Version { version }) => r matches Ok(x) && x == Some(version),
            None => r matches Ok(x) && x is None,
            _ => r matches Err(e) && e is Decode,
        },
{
    match resp.msg {
        Some(ResponseMsg::Version { version }) => Ok(Some(version)),
        None => Ok(None),
        _ => Err(DispatchError::Decode),
    }
}

/// The chain variables of a configuration response; an empty or unexpected
/// message is a decode error.
pub fn config_response(resp: GatewayResponse) -> (r: Result<Vec<BlockchainVar>, DispatchError>)
    ensures
        match resp.msg {
            Some(ResponseMsg::ConfigResp(v)) => r matches Ok(x) && x == v,
            _ => r matches Err(e) && e is Decode,
        },
{
    match resp.msg {
        Some(ResponseMsg::ConfigResp(v)) => Ok(v),
        _ => Err(DispatchError::Decode),
    }
}

/// The chain height and block age of any response envelope.
pub fn height_response(resp: &GatewayResponse) -> (r: (u64, u64))
    ensures
        r.0 == resp.height,
        r.1 == resp.block_age,
{
    (resp.height, resp.block_age)
}

/// The bytes of the error tag a validator answers with while a challenge
/// is still queued.
pub open spec fn queued_poc_bytes() -> Seq<u8> {
    seq![113u8, 117u8, 101u8, 117u8, 101u8, 100u8, 95u8, 112u8, 111u8, 99u8]
}

/// Whether `v` spells the queued-challenge error tag.
fn is_queued_poc(v: &Vec<u8>) -> (r: bool)
    ensures
        r == (v@ == queued_poc_bytes()),
{
    let pat: [u8; 10] = [113u8, 117u8, 101u8, 117u8, 101u8, 100u8, 95u8, 112u8, 111u8, 99u8];
    proof {
        assert(pat@ =~= queued_poc_bytes());
    }
    if v.len() != 10 {
        return false;
    }
    let mut i: usize = 0;
    while i < 10
        invariant
            i <= 10,
            v@.len() == 10,
            pat@ == queued_poc_bytes(),
            forall|j: int| 0 <= j < i ==> v@[j] == queued_poc_bytes()[j],
        decreases 10 - i,
    {
        if v[i] != pat[i] {
            proof {
                assert(v@[i as int] != queued_poc_bytes()[i as int]);
            }
            return false;
        }
        i += 1;
    }
    proof {
        assert(v@ =~= queued_poc_bytes());
    }
    true
}

/// The outcome of a challenge-target check: not the target, the target
/// with its onion, or still queued at the envelope's height. A queued
/// answer comes as an error response spelling the queued tag; any other
/// variant is an unexpected message.
pub fn challenge_check_response(resp: GatewayResponse) -> (r: Result<ChallengeCheck, DispatchError>)
    ensures
        match resp.msg {
            Some(ResponseMsg::PocCheckTargetResp { target, onion }) => if target {
                r matches Ok(c) && c matches ChallengeCheck::Target(o) && o == onion
            } else {
                r matches Ok(c) && c is NotTarget
            },
            Some(ResponseMsg::ErrorResp { error }) => if error@ == queued_poc_bytes() {
                r matches Ok(c) && c matches ChallengeCheck::Queued(h) && h == resp.height
            } else {
                r matches Err(e) && e is Decode
            },
            _ => r matches Err(e) && e is Decode,
        },
{
    let height = resp.height;
    match resp.msg {
        Some(ResponseMsg::PocCheckTargetResp { target, onion }) => {
            if !target {
                Ok(ChallengeCheck::NotTarget)
            } else {
                Ok(ChallengeCheck::Target(onion))
            }
        },
        Some(ResponseMsg::ErrorResp { error }) => {
            if is_queued_poc(&error) {
                Ok(ChallengeCheck::Queued(height))
            } else {
                Err(DispatchError::Decode)
            }
        },
        _ => Err(DispatchError::Decode),
    }
}

/// The public route of a challenger lookup; any other variant is an
/// unexpected message.
pub fn poc_challenger_response(resp: GatewayResponse) -> (r: Result<
    Option<KeyedUri>,
    DispatchError,
>)
    ensures
        match resp.msg {
            Some(ResponseMsg::PublicRoute(u)) => r matches Ok(x) && x matches Some(y) && y == u,
            _ => r matches Err(e) && e is Decode,
        },
{
    match resp.msg {
        Some(ResponseMsg::PublicRoute(u)) => Ok(Some(u)),
        _ => Err(DispatchError::Decode),
    }
}

/// The acknowledgement of a report submission: success is owed exactly to
/// a success response; an error response is an RPC failure, anything else
/// an unexpected message.
pub fn send_report_response(resp: GatewayResponse) -> (r: Result<(), DispatchError>)
    ensures
        match resp.msg {
            Some(ResponseMsg::SuccessResp) => r is Ok,
            Some(ResponseMsg::ErrorResp { error }) => r matches Err(e) && e is Rpc,
            _ => r matches Err(e) && e is Decode,
        },
{
    match resp.msg {
        Some(ResponseMsg::SuccessResp) => Ok(()),
        Some(ResponseMsg::ErrorResp { error: _ }) => Err(DispatchError::Rpc),
        _ => Err(DispatchError::Decode),
    }
}

/// The acknowledgement of a state-channel close submission: success is
/// owed exactly to a success response; an error response is an RPC
/// failure, anything else an unexpected message.
pub fn close_sc_response(resp: GatewayResponse) -> (r: Result<(), DispatchError>)
    ensures
        match resp.msg {
            Some(ResponseMsg::SuccessResp) => r is Ok,
            Some(ResponseMsg::ErrorResp { error }) => r matches Err(e) && e is Rpc,
            _ => r matches Err(e) && e is Decode,
        },
{
    match resp.msg {
        Some(ResponseMsg::SuccessResp) => Ok(()),
        Some(ResponseMsg::ErrorResp { error: _ }) => Err(DispatchError::Rpc),
        _ => Err(DispatchError::Decode),
    }
}

/// The answer of a state-channel activity check: the echoed id and owner
/// must equal the asked ones, else the answer does not belong to the
/// question; any other variant is an unexpected message.
pub fn is_active_response(resp: GatewayResponse, id: &Vec<u8>, owner: &Vec<u8>) -> (r: Result<
    bool,
    DispatchError,
>)
    ensures
        match resp.msg {
            Some(ResponseMsg::IsActiveResp { sc_id, sc_owner, active }) => if sc_id@ == id@
                && sc_owner@ == owner@ {
                r matches Ok(x) && x == active
            } else {
                r matches Err(e) && e matches DispatchError::Custom(m) && m@
                    == "mismatched state channel id and owner"@
            },
            _ => r matches Err(e) && e is Decode,
        },
{
    match resp.msg {
        Some(ResponseMsg::IsActiveResp { sc_id, sc_owner, active }) => {
            if crate::keyed_uri::bytes_eq(&sc_id, id) && crate::keyed_uri::bytes_eq(
                &sc_owner,
                owner,
            ) {
                Ok(active)
            } else {
                Err(DispatchError::custom("mismatched state channel id and owner"))
            }
        },
        _ => Err(DispatchError::Decode),
    }
}

} // verus!
