use maid_manager::Account;
use maid_manager::ClientError;
use maid_manager::DEFAULT_ACCOUNT_SIZE;

#[test]
fn default_account_has_full_quota() {
    let account = Account::default();
    assert_eq!(account.data_stored, 0);
    assert_eq!(account.space_available, DEFAULT_ACCOUNT_SIZE);
    assert_eq!(DEFAULT_ACCOUNT_SIZE, 1_073_741_824);
}

#[test]
fn put_data_debits_exactly() {
    let mut account = Account::default();
    assert_eq!(account.put_data(1_048_576), Ok(()));
    assert_eq!(account.data_stored, 1_048_576);
    assert_eq!(account.space_available, DEFAULT_ACCOUNT_SIZE - 1_048_576);
}

#[test]
fn put_data_fails_iff_charge_exceeds_available() {
    let mut account = Account { data_stored: 0, space_available: 100 };
    // A charge of exactly the available quota succeeds.
    assert_eq!(account.put_data(100), Ok(()));
    assert_eq!(account.data_stored, 100);
    assert_eq!(account.space_available, 0);
    // One more byte than is available fails and changes nothing.
    assert_eq!(account.put_data(1), Err(ClientError::LowBalance));
    assert_eq!(account.data_stored, 100);
    assert_eq!(account.space_available, 0);
}

#[test]
fn delete_data_refunds_exactly() {
    let mut account = Account { data_stored: 100, space_available: 50 };
    account.delete_data(30);
    assert_eq!(account.data_stored, 70);
    assert_eq!(account.space_available, 80);
}

#[test]
fn delete_data_clamps_oversized_refund() {
    let mut account = Account { data_stored: 40, space_available: 10 };
    account.delete_data(100);
    assert_eq!(account.data_stored, 0);
    assert_eq!(account.space_available, 50);
}

#[test]
fn debits_and_refunds_conserve_the_total() {
    let mut account = Account::default();
    assert_eq!(account.put_data(500), Ok(()));
    assert_eq!(account.put_data(200), Ok(()));
    account.delete_data(200);
    account.delete_data(500);
    assert_eq!(account.data_stored, 0);
    assert_eq!(account.space_available, DEFAULT_ACCOUNT_SIZE);
    assert_eq!(
        account.data_stored + account.space_available,
        DEFAULT_ACCOUNT_SIZE
    );
}
