use maid_manager::decode_client_error;
use maid_manager::encode_client_error;
use maid_manager::encode_refresh;
use maid_manager::Account;
use maid_manager::Action;
use maid_manager::Authority;
use maid_manager::ClientError;
use maid_manager::Data;
use maid_manager::InternalError;
use maid_manager::MaidManager;
use maid_manager::MembershipVerdict;
use maid_manager::RequestContent;
use maid_manager::RequestMessage;
use maid_manager::DEFAULT_ACCOUNT_SIZE;
use maid_manager::DEFAULT_PAYMENT;

const CLIENT_NAME: u64 = 42;
const PROXY_NAME: u64 = 7;

fn our_authority() -> Authority {
    Authority::ClientManager(CLIENT_NAME)
}

fn client() -> Authority {
    Authority::Client { client_name: CLIENT_NAME, proxy_node_name: PROXY_NAME }
}

fn put_request(data: Data, message_id: u64) -> RequestMessage {
    RequestMessage {
        src: client(),
        dst: our_authority(),
        content: RequestContent::Put(data, message_id),
    }
}

fn forwards(effects: &[Action]) -> Vec<&Action> {
    effects
        .iter()
        .filter(|a| matches!(a, Action::ForwardPut { .. }))
        .collect()
}

fn failures(effects: &[Action]) -> Vec<&Action> {
    effects
        .iter()
        .filter(|a| matches!(a, Action::SendPutFailure { .. }))
        .collect()
}

#[test]
fn handle_put_without_account() {
    let mut maid_manager = MaidManager::new();
    let mut effects: Vec<Action> = Vec::new();

    // A valid immutable-content put before any account is created.
    let immutable_data = Data::Immutable { name: 1024 };
    let message_id: u64 = 3;
    let valid_request = put_request(immutable_data, message_id);

    if let Err(InternalError::Client(ClientError::NoSuchAccount)) =
        maid_manager.handle_put(&valid_request, &mut effects)
    {
    } else {
        unreachable!()
    }
    let put_requests = forwards(&effects);
    assert!(put_requests.is_empty());
    let put_failures = failures(&effects);
    assert_eq!(put_failures.len(), 1);
    if let Action::SendPutFailure { src, dst, request, external_error_indicator, message_id: id } =
        put_failures[0]
    {
        assert_eq!(*src, our_authority());
        assert_eq!(*dst, client());
        assert_eq!(*id, message_id);
        assert_eq!(*request, valid_request);
        if let Some(ClientError::NoSuchAccount) = decode_client_error(external_error_indicator) {
        } else {
            unreachable!()
        }
    } else {
        unreachable!()
    }
}

#[test]
fn account_creation_put_creates_debits_and_forwards() {
    let mut maid_manager = MaidManager::new();
    let mut effects: Vec<Action> = Vec::new();

    let data = Data::Structured { name: 900, type_tag: 0 };
    let request = put_request(data, 11);
    assert_eq!(maid_manager.handle_put(&request, &mut effects), Ok(()));

    assert!(failures(&effects).is_empty());
    assert_eq!(effects.len(), 1);
    match &effects[0] {
        Action::ForwardPut { src, dst, data: forwarded, message_id } => {
            assert_eq!(*src, our_authority());
            assert_eq!(*dst, Authority::NaeManager(900));
            assert_eq!(*forwarded, data);
            assert_eq!(*message_id, 11);
        }
        _ => unreachable!(),
    }
    let account = maid_manager.account(CLIENT_NAME).unwrap();
    assert_eq!(account.data_stored, DEFAULT_PAYMENT);
    assert_eq!(account.space_available, DEFAULT_ACCOUNT_SIZE - DEFAULT_PAYMENT);
}

#[test]
fn account_creation_put_rejected_when_account_exists() {
    let mut maid_manager = MaidManager::new();
    let mut effects: Vec<Action> = Vec::new();
    maid_manager.handle_refresh(CLIENT_NAME, Account::default());

    let data = Data::Structured { name: 901, type_tag: 0 };
    let request = put_request(data, 12);
    assert_eq!(
        maid_manager.handle_put(&request, &mut effects),
        Err(InternalError::Client(ClientError::AccountExists))
    );
    assert!(forwards(&effects).is_empty());
    let put_failures = failures(&effects);
    assert_eq!(put_failures.len(), 1);
    if let Action::SendPutFailure { external_error_indicator, .. } = put_failures[0] {
        assert_eq!(
            decode_client_error(external_error_indicator),
            Some(ClientError::AccountExists)
        );
    } else {
        unreachable!()
    }
    // The existing account is untouched.
    assert_eq!(maid_manager.account(CLIENT_NAME), Some(Account::default()));
}

#[test]
fn two_puts_on_one_payment_of_quota() {
    let mut maid_manager = MaidManager::new();
    let mut effects: Vec<Action> = Vec::new();
    // A client whose whole quota covers exactly one fixed payment.
    maid_manager.handle_refresh(
        CLIENT_NAME,
        Account { data_stored: 0, space_available: DEFAULT_PAYMENT },
    );

    let first = put_request(Data::Immutable { name: 100 }, 21);
    assert_eq!(maid_manager.handle_put(&first, &mut effects), Ok(()));
    assert_eq!(forwards(&effects).len(), 1);
    assert!(failures(&effects).is_empty());

    let second = put_request(Data::Immutable { name: 101 }, 22);
    assert_eq!(
        maid_manager.handle_put(&second, &mut effects),
        Err(InternalError::Client(ClientError::LowBalance))
    );
    // The second put is rejected before any forwarding.
    assert_eq!(forwards(&effects).len(), 1);
    let put_failures = failures(&effects);
    assert_eq!(put_failures.len(), 1);
    if let Action::SendPutFailure { request, external_error_indicator, .. } = put_failures[0] {
        assert_eq!(*request, second);
        assert_eq!(
            decode_client_error(external_error_indicator),
            Some(ClientError::LowBalance)
        );
    } else {
        unreachable!()
    }
    let account = maid_manager.account(CLIENT_NAME).unwrap();
    assert_eq!(account.data_stored, DEFAULT_PAYMENT);
    assert_eq!(account.space_available, 0);
}

#[test]
fn success_notification_answers_the_cached_client() {
    let mut maid_manager = MaidManager::new();
    let mut effects: Vec<Action> = Vec::new();
    let request = put_request(Data::Structured { name: 77, type_tag: 0 }, 31);
    assert_eq!(maid_manager.handle_put(&request, &mut effects), Ok(()));

    effects.clear();
    assert_eq!(maid_manager.handle_put_success(31, &mut effects), Ok(()));
    assert_eq!(effects.len(), 1);
    match &effects[0] {
        Action::SendPutSuccess { src, dst, message_hash, message_id } => {
            assert_eq!(*src, our_authority());
            assert_eq!(*dst, client());
            assert_eq!(message_hash.len(), 64);
            assert_eq!(*message_id, 31);
        }
        _ => unreachable!(),
    }
    // No quota change on success: the debit already accounted for the put.
    let account = maid_manager.account(CLIENT_NAME).unwrap();
    assert_eq!(account.data_stored, DEFAULT_PAYMENT);
}

#[test]
fn completion_resolves_at_most_once() {
    let mut maid_manager = MaidManager::new();
    let mut effects: Vec<Action> = Vec::new();
    let request = put_request(Data::Structured { name: 78, type_tag: 0 }, 41);
    assert_eq!(maid_manager.handle_put(&request, &mut effects), Ok(()));

    assert_eq!(maid_manager.handle_put_success(41, &mut effects), Ok(()));
    // The identifier was consumed: a second completion is a cache miss.
    assert_eq!(
        maid_manager.handle_put_success(41, &mut effects),
        Err(InternalError::FailedToFindCachedRequest(41))
    );
    assert_eq!(
        maid_manager.handle_put_failure(41, &[1u8], &mut effects),
        Err(InternalError::FailedToFindCachedRequest(41))
    );
}

#[test]
fn failure_notification_refunds_and_relays_the_error() {
    let mut maid_manager = MaidManager::new();
    let mut effects: Vec<Action> = Vec::new();
    let request = put_request(Data::Structured { name: 79, type_tag: 0 }, 51);
    assert_eq!(maid_manager.handle_put(&request, &mut effects), Ok(()));
    assert_eq!(
        maid_manager.account(CLIENT_NAME).unwrap().data_stored,
        DEFAULT_PAYMENT
    );

    effects.clear();
    // A downstream error unrelated to this persona's own quota checks.
    let indicator = encode_client_error(&ClientError::AccountExists);
    assert_eq!(maid_manager.handle_put_failure(51, &indicator, &mut effects), Ok(()));

    // The optimistic debit was refunded in full.
    let account = maid_manager.account(CLIENT_NAME).unwrap();
    assert_eq!(account.data_stored, 0);
    assert_eq!(account.space_available, DEFAULT_ACCOUNT_SIZE);

    // The client sees the downstream error, echoing the original request.
    assert_eq!(effects.len(), 1);
    if let Action::SendPutFailure { src, dst, request: echoed, external_error_indicator, message_id } =
        &effects[0]
    {
        assert_eq!(*src, our_authority());
        assert_eq!(*dst, client());
        assert_eq!(*echoed, request);
        assert_eq!(
            decode_client_error(external_error_indicator),
            Some(ClientError::AccountExists)
        );
        assert_eq!(*message_id, 51);
    } else {
        unreachable!()
    }
}

#[test]
fn failure_notification_with_undecodable_error_is_internal() {
    let mut maid_manager = MaidManager::new();
    let mut effects: Vec<Action> = Vec::new();
    let request = put_request(Data::Structured { name: 80, type_tag: 0 }, 61);
    assert_eq!(maid_manager.handle_put(&request, &mut effects), Ok(()));

    effects.clear();
    assert_eq!(
        maid_manager.handle_put_failure(61, &[9u8, 9u8], &mut effects),
        Err(InternalError::FailedSerialisation)
    );
    // No client response is produced for an undecodable downstream error.
    assert!(effects.is_empty());
}

#[test]
fn success_notification_for_unknown_identifier_is_internal() {
    let mut maid_manager = MaidManager::new();
    let mut effects: Vec<Action> = Vec::new();
    assert_eq!(
        maid_manager.handle_put_success(999, &mut effects),
        Err(InternalError::FailedToFindCachedRequest(999))
    );
    // No client response is sent.
    assert!(effects.is_empty());
}

#[test]
fn refresh_overwrites_and_is_idempotent() {
    let mut maid_manager = MaidManager::new();
    maid_manager.handle_refresh(5, Account { data_stored: 1, space_available: 2 });
    assert_eq!(
        maid_manager.account(5),
        Some(Account { data_stored: 1, space_available: 2 })
    );

    // Last writer wins.
    let snapshot = Account { data_stored: 30, space_available: 40 };
    maid_manager.handle_refresh(5, snapshot);
    assert_eq!(maid_manager.account(5), Some(snapshot));
    assert_eq!(maid_manager.account_count(), 1);

    // Applying the same snapshot again changes nothing.
    maid_manager.handle_refresh(5, snapshot);
    assert_eq!(maid_manager.account(5), Some(snapshot));
    assert_eq!(maid_manager.account_count(), 1);
}

#[test]
fn churn_keeps_exactly_the_still_responsible_accounts() {
    let mut maid_manager = MaidManager::new();
    let kept_account = Account { data_stored: 10, space_available: 90 };
    maid_manager.handle_refresh(1, kept_account);
    maid_manager.handle_refresh(2, Account { data_stored: 20, space_available: 80 });
    maid_manager.handle_refresh(3, Account { data_stored: 30, space_available: 70 });

    let verdicts = vec![
        (1u64, MembershipVerdict::StillResponsible),
        (2u64, MembershipVerdict::NoLongerResponsible),
        (3u64, MembershipVerdict::QueryFailed),
    ];
    let mut effects: Vec<Action> = Vec::new();
    maid_manager.handle_churn(&verdicts, &mut effects);

    assert_eq!(maid_manager.account_count(), 1);
    assert_eq!(maid_manager.account(1), Some(kept_account));
    assert_eq!(maid_manager.account(2), None);
    assert_eq!(maid_manager.account(3), None);

    // Exactly one refresh broadcast, for the retained account, as the
    // client's own manager authority.
    assert_eq!(effects.len(), 1);
    match &effects[0] {
        Action::SendRefresh { src, serialised_refresh } => {
            assert_eq!(*src, Authority::ClientManager(1));
            assert_eq!(*serialised_refresh, encode_refresh(1, &kept_account));
        }
        _ => unreachable!(),
    }
}

#[test]
fn churn_drops_accounts_with_no_verdict() {
    let mut maid_manager = MaidManager::new();
    maid_manager.handle_refresh(9, Account::default());
    let verdicts: Vec<(u64, MembershipVerdict)> = Vec::new();
    let mut effects: Vec<Action> = Vec::new();
    maid_manager.handle_churn(&verdicts, &mut effects);
    assert_eq!(maid_manager.account_count(), 0);
    assert_eq!(maid_manager.account(9), None);
    assert!(effects.is_empty());
}

#[test]
fn unexpected_payload_kind_is_internal_and_silent() {
    let mut maid_manager = MaidManager::new();
    let mut effects: Vec<Action> = Vec::new();
    maid_manager.handle_refresh(CLIENT_NAME, Account::default());
    let request = put_request(Data::Plain { name: 55 }, 71);
    assert_eq!(
        maid_manager.handle_put(&request, &mut effects),
        Err(InternalError::UnexpectedRequestKind)
    );
    assert!(effects.is_empty());
    assert_eq!(maid_manager.account(CLIENT_NAME), Some(Account::default()));
}

#[test]
fn verdict_lookup_takes_the_first_matching_entry() {
    let verdicts = vec![
        (4u64, maid_manager::MembershipVerdict::StillResponsible),
        (4u64, maid_manager::MembershipVerdict::NoLongerResponsible),
    ];
    assert_eq!(
        maid_manager::lookup_verdict(&verdicts, 4),
        maid_manager::MembershipVerdict::StillResponsible
    );
    assert_eq!(
        maid_manager::lookup_verdict(&verdicts, 5),
        maid_manager::MembershipVerdict::QueryFailed
    );
}

#[test]
fn duplicate_registration_is_reported_and_replaced() {
    let mut maid_manager = MaidManager::new();
    let mut effects: Vec<Action> = Vec::new();
    let first = put_request(Data::Structured { name: 82, type_tag: 0 }, 81);
    assert_eq!(maid_manager.handle_put(&first, &mut effects), Ok(()));

    effects.clear();
    // A second forwarding under the same identifier, before any completion.
    let second = put_request(Data::Immutable { name: 83 }, 81);
    assert_eq!(maid_manager.handle_put(&second, &mut effects), Ok(()));
    assert_eq!(effects.len(), 2);
    assert!(matches!(effects[0], Action::ForwardPut { .. }));
    match &effects[1] {
        Action::ReportDuplicateRegistration { message_id, prior_request } => {
            assert_eq!(*message_id, 81);
            assert_eq!(*prior_request, first);
        }
        _ => unreachable!(),
    }

    // The replacement won: the completion answers the second request.
    effects.clear();
    assert_eq!(maid_manager.handle_put_success(81, &mut effects), Ok(()));
    match &effects[0] {
        Action::SendPutSuccess { dst, .. } => assert_eq!(*dst, client()),
        _ => unreachable!(),
    }
}
