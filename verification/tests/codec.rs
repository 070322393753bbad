use maid_manager::decode_client_error;
use maid_manager::decode_refresh;
use maid_manager::encode_client_error;
use maid_manager::encode_refresh;
use maid_manager::Account;
use maid_manager::ClientError;

#[test]
fn client_error_wire_form_is_one_tag_byte() {
    assert_eq!(encode_client_error(&ClientError::LowBalance), vec![0u8]);
    assert_eq!(encode_client_error(&ClientError::AccountExists), vec![1u8]);
    assert_eq!(encode_client_error(&ClientError::NoSuchAccount), vec![2u8]);
}

#[test]
fn client_error_round_trips() {
    for error in [
        ClientError::LowBalance,
        ClientError::AccountExists,
        ClientError::NoSuchAccount,
    ] {
        let bytes = encode_client_error(&error);
        assert_eq!(decode_client_error(&bytes), Some(error));
    }
}

#[test]
fn client_error_rejects_malformed_payloads() {
    assert_eq!(decode_client_error(&[]), None);
    assert_eq!(decode_client_error(&[3u8]), None);
    assert_eq!(decode_client_error(&[0u8, 0u8]), None);
}

#[test]
fn refresh_snapshot_round_trips() {
    let account = Account { data_stored: 7, space_available: 500 };
    let bytes = encode_refresh(0x0123_4567_89ab_cdef, &account);
    assert_eq!(bytes.len(), 24);
    assert_eq!(&bytes[0..8], &[0xef, 0xcd, 0xab, 0x89, 0x67, 0x45, 0x23, 0x01]);
    assert_eq!(&bytes[8..16], &[7, 0, 0, 0, 0, 0, 0, 0]);
    assert_eq!(&bytes[16..24], &[244, 1, 0, 0, 0, 0, 0, 0]);
    assert_eq!(decode_refresh(&bytes), Some((0x0123_4567_89ab_cdef, account)));
}

#[test]
fn refresh_snapshot_rejects_wrong_length() {
    assert_eq!(decode_refresh(&[0u8; 23]), None);
    assert_eq!(decode_refresh(&[0u8; 25]), None);
    assert_eq!(decode_refresh(&[]), None);
}

#[test]
fn refresh_snapshot_rejects_overflowing_balances() {
    let mut bytes = vec![0u8; 24];
    // Both balances u64::MAX: no well-formed account can hold them.
    for b in bytes.iter_mut().skip(8) {
        *b = 0xff;
    }
    assert_eq!(decode_refresh(&bytes), None);
}

#[test]
fn request_wire_form_is_deterministic_and_tagged() {
    let request = maid_manager::RequestMessage {
        src: maid_manager::Authority::Client { client_name: 1, proxy_node_name: 2 },
        dst: maid_manager::Authority::ClientManager(1),
        content: maid_manager::RequestContent::Put(
            maid_manager::Data::Immutable { name: 3 },
            4,
        ),
    };
    let bytes = maid_manager::encode_request(&request);
    // Two 17-byte authorities, a 17-byte payload, an 8-byte identifier.
    assert_eq!(bytes.len(), 59);
    assert_eq!(bytes[0], 0);
    assert_eq!(bytes[17], 1);
    assert_eq!(bytes[34], 0);
    assert_eq!(bytes, maid_manager::encode_request(&request));
}
