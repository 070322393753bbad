mod account;
mod cache;
mod codec;
mod digest;
mod errors;
mod manager;
mod message;
mod store;

pub use account::Account;
pub use account::DEFAULT_ACCOUNT_SIZE;
pub use account::DEFAULT_PAYMENT;
pub use account::AccountOp;
pub use account::apply_op;
pub use account::apply_ops;
pub use account::lemma_total_conserved;
pub use account::spec_debit;
pub use account::spec_refund;
pub use codec::decode_client_error;
pub use codec::decode_refresh;
pub use codec::encode_client_error;
pub use codec::encode_refresh;
pub use codec::encode_request;
pub use codec::lemma_client_error_round_trip;
pub use codec::lemma_refresh_round_trip;
pub use codec::spec_decode_client_error;
pub use codec::spec_decode_refresh;
pub use codec::spec_encode_authority;
pub use codec::spec_encode_client_error;
pub use codec::spec_encode_data;
pub use codec::spec_encode_refresh;
pub use codec::spec_encode_request;
pub use errors::ClientError;
pub use errors::InternalError;
pub use message::Action;
pub use message::Authority;
pub use message::Data;
pub use message::MembershipVerdict;
pub use message::MessageId;
pub use message::RequestContent;
pub use message::RequestMessage;
pub use message::XorName;
pub use store::AccountStore;
pub use cache::cache_config;
pub use cache::cache_contents;
pub use cache::RequestCache;
pub use digest::sha512_of;
pub use manager::MaidManager;
pub use manager::CACHE_CAPACITY;
pub use manager::CACHE_TTL_SECS;
pub use manager::appended_one;
pub use manager::cache_registered;
pub use manager::forwarded_effects;
pub use manager::is_duplicate_report_action;
pub use manager::is_forward_put_action;
pub use manager::is_put_failure_action;
pub use manager::is_put_success_action;
pub use manager::put_accepted;
pub use manager::put_forward_transition;
pub use manager::put_rejected;
pub use manager::put_transition;
pub use manager::refresh_transition;
pub use manager::refunded_payment;
pub use manager::lemma_refresh_idempotent;
pub use manager::churn_kept;
pub use manager::verdict_of;
pub use manager::is_refresh_broadcast_action;
pub use manager::lookup_verdict;
pub use manager::lemma_completion_consumed_once;
pub use manager::prefix_has;
pub use manager::req_client;
pub use manager::req_data;
pub use manager::req_id;
