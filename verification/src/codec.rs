use vstd::prelude::*;
use vstd::bytes::*;
use vstd::slice::slice_subrange;

use crate::account::Account;
use crate::errors::ClientError;
use crate::message::Authority;
use crate::message::Data;
use crate::message::RequestContent;
use crate::message::RequestMessage;
use crate::message::XorName;

verus! {

/// Wire form of a client-level error: a single tag byte.
pub open spec fn spec_encode_client_error(e: ClientError) -> Seq<u8> {
    match e {
        ClientError::LowBalance => seq![0u8],
        ClientError::AccountExists => seq![1u8],
        ClientError::NoSuchAccount => seq![2u8],
    }
}

/// Which error a byte string denotes, if any.
pub open spec fn spec_decode_client_error(s: Seq<u8>) -> Option<ClientError> {
    if s.len() != 1 {
        None
    } else if s[0] == 0u8 {
        Some(ClientError::LowBalance)
    } else if s[0] == 1u8 {
        Some(ClientError::AccountExists)
    } else if s[0] == 2u8 {
        Some(ClientError::NoSuchAccount)
    } else {
        None
    }
}

/// Encode a client-level error for a failure response payload.
pub fn encode_client_error(e: &ClientError) -> (r: Vec<u8>)
    ensures
        r@ == spec_encode_client_error(*e),
{
    let mut out: Vec<u8> = Vec::new();
    match e {
        ClientError::LowBalance => out.push(0u8),
        ClientError::AccountExists => out.push(1u8),
        ClientError::NoSuchAccount => out.push(2u8),
    }
    proof {
        assert(out@ =~= spec_encode_client_error(*e));
    }
    out
}

/// Decode the error payload carried by a downstream failure notification.
pub fn decode_client_error(bytes: &[u8]) -> (r: Option<ClientError>)
    ensures
        r == spec_decode_client_error(bytes@),
{
    if bytes.len() != 1 {
        return None;
    }
    let b = bytes[0];
    if b == 0u8 {
        Some(ClientError::LowBalance)
    } else if b == 1u8 {
        Some(ClientError::AccountExists)
    } else if b == 2u8 {
        Some(ClientError::NoSuchAccount)
    } else {
        None
    }
}

/// Every client-level error survives the trip onto the wire and back, and a
/// byte string that decodes at all decodes to the error that produced it.
pub proof fn lemma_client_error_round_trip(e: ClientError, s: Seq<u8>)
    ensures
        spec_decode_client_error(spec_encode_client_error(e)) == Some(e),
        spec_decode_client_error(s) == Some(e) ==> spec_encode_client_error(e) == s,
{
    if spec_decode_client_error(s) == Some(e) {
        assert(spec_encode_client_error(e) =~= s);
    }
}

/// Wire form of a refresh snapshot: the client's address and the two account
/// balances, each as eight little-endian bytes.
pub open spec fn spec_encode_refresh(name: XorName, account: Account) -> Seq<u8> {
    spec_u64_to_le_bytes(name) + spec_u64_to_le_bytes(account.data_stored)
        + spec_u64_to_le_bytes(account.space_available)
}

/// Which snapshot a byte string denotes, if it is well-formed: exactly 24
/// bytes, and balances that a well-formed account can hold.
pub open spec fn spec_decode_refresh(s: Seq<u8>) -> Option<(XorName, Account)> {
    if s.len() != 24 {
        None
    } else {
        let name = spec_u64_from_le_bytes(s.subrange(0, 8));
        let stored = spec_u64_from_le_bytes(s.subrange(8, 16));
        let available = spec_u64_from_le_bytes(s.subrange(16, 24));
        if stored + available > u64::MAX {
            None
        } else {
            Some((name, Account { data_stored: stored, space_available: available }))
        }
    }
}

/// Encode an account snapshot for a refresh broadcast.
pub fn encode_refresh(name: XorName, account: &Account) -> (r: Vec<u8>)
    ensures
        r@ == spec_encode_refresh(name, *account),
{
    let mut out: Vec<u8> = u64_to_le_bytes(name);
    let mut stored = u64_to_le_bytes(account.data_stored);
    let mut available = u64_to_le_bytes(account.space_available);
    out.append(&mut stored);
    out.append(&mut available);
    out
}

/// Decode a refresh snapshot received from a peer. Returns `None` for any
/// byte string that no well-formed snapshot encodes to.
pub fn decode_refresh(bytes: &[u8]) -> (r: Option<(XorName, Account)>)
    ensures
        r == spec_decode_refresh(bytes@),
        r matches Some(p) ==> p.1.inv(),
{
    if bytes.len() != 24 {
        return None;
    }
    let name = u64_from_le_bytes(slice_subrange(bytes, 0, 8));
    let stored = u64_from_le_bytes(slice_subrange(bytes, 8, 16));
    let available = u64_from_le_bytes(slice_subrange(bytes, 16, 24));
    if stored > u64::MAX - available {
        return None;
    }
    Some((name, Account { data_stored: stored, space_available: available }))
}

/// A well-formed snapshot survives the trip onto the wire and back.
pub proof fn lemma_refresh_round_trip(name: XorName, account: Account)
    requires
        account.inv(),
    ensures
        spec_decode_refresh(spec_encode_refresh(name, account)) == Some((name, account)),
{
    lemma_auto_spec_u64_to_from_le_bytes();
    let s = spec_encode_refresh(name, account);
    assert(s.subrange(0, 8) =~= spec_u64_to_le_bytes(name));
    assert(s.subrange(8, 16) =~= spec_u64_to_le_bytes(account.data_stored));
    assert(s.subrange(16, 24) =~= spec_u64_to_le_bytes(account.space_available));
}

/// Wire form of an authority: a tag byte, the routed address, and the proxy
/// address (zero where the variant has none).
pub open spec fn spec_encode_authority(a: Authority) -> Seq<u8> {
    match a {
        Authority::Client { client_name, proxy_node_name } => seq![0u8]
            + spec_u64_to_le_bytes(client_name) + spec_u64_to_le_bytes(proxy_node_name),
        Authority::ClientManager(name) => seq![1u8] + spec_u64_to_le_bytes(name)
            + spec_u64_to_le_bytes(0u64),
        Authority::NaeManager(name) => seq![2u8] + spec_u64_to_le_bytes(name)
            + spec_u64_to_le_bytes(0u64),
    }
}

/// Wire form of a put payload: a tag byte, the content address, and the type
/// tag (zero where the kind has none).
pub open spec fn spec_encode_data(d: Data) -> Seq<u8> {
    match d {
        Data::Immutable { name } => seq![0u8] + spec_u64_to_le_bytes(name)
            + spec_u64_to_le_bytes(0u64),
        Data::Structured { name, type_tag } => seq![1u8] + spec_u64_to_le_bytes(name)
            + spec_u64_to_le_bytes(type_tag),
        Data::Plain { name } => seq![2u8] + spec_u64_to_le_bytes(name)
            + spec_u64_to_le_bytes(0u64),
    }
}

/// Wire form of a whole request, hashed for the success response sent back
/// to the client.
pub open spec fn spec_encode_request(m: RequestMessage) -> Seq<u8> {
    match m.content {
        RequestContent::Put(data, message_id) => spec_encode_authority(m.src)
            + spec_encode_authority(m.dst) + spec_encode_data(data)
            + spec_u64_to_le_bytes(message_id),
    }
}

fn encode_authority_into(out: &mut Vec<u8>, a: &Authority)
    ensures
        final(out)@ == old(out)@ + spec_encode_authority(*a),
{
    let (tag, name, extra): (u8, u64, u64) = match a {
        Authority::Client { client_name, proxy_node_name } => (0u8, *client_name, *proxy_node_name),
        Authority::ClientManager(name) => (1u8, *name, 0u64),
        Authority::NaeManager(name) => (2u8, *name, 0u64),
    };
    out.push(tag);
    let mut name_bytes = u64_to_le_bytes(name);
    let mut extra_bytes = u64_to_le_bytes(extra);
    out.append(&mut name_bytes);
    out.append(&mut extra_bytes);
    proof {
        assert(out@ =~= old(out)@ + spec_encode_authority(*a));
    }
}

/// Encode a request as the byte string whose digest the success response
/// carries.
pub fn encode_request(m: &RequestMessage) -> (r: Vec<u8>)
    ensures
        r@ == spec_encode_request(*m),
{
    let mut out: Vec<u8> = Vec::new();
    encode_authority_into(&mut out, &m.src);
    encode_authority_into(&mut out, &m.dst);
    let (data, message_id): (Data, u64) = match &m.content {
        RequestContent::Put(data, message_id) => (*data, *message_id),
    };
    let (tag, name, extra): (u8, u64, u64) = match data {
        Data::Immutable { name } => (0u8, name, 0u64),
        Data::Structured { name, type_tag } => (1u8, name, type_tag),
        Data::Plain { name } => (2u8, name, 0u64),
    };
    out.push(tag);
    let mut name_bytes = u64_to_le_bytes(name);
    let mut extra_bytes = u64_to_le_bytes(extra);
    let mut id_bytes = u64_to_le_bytes(message_id);
    out.append(&mut name_bytes);
    out.append(&mut extra_bytes);
    out.append(&mut id_bytes);
    proof {
        assert(out@ =~= spec_encode_request(*m));
    }
    out
}

} // verus!
