use vstd::prelude::*;

use crate::account::Account;
use crate::account::DEFAULT_ACCOUNT_SIZE;
use crate::account::DEFAULT_PAYMENT;
use crate::cache::cache_config;
use crate::cache::cache_contents;
use crate::cache::cache_insert;
use crate::cache::cache_new;
use crate::cache::cache_remove;
use crate::cache::RequestCache;
use crate::codec::encode_client_error;
use crate::codec::encode_refresh;
use crate::codec::spec_encode_refresh;
use crate::codec::spec_encode_client_error;
use crate::codec::spec_encode_request;
use crate::digest::sha512_of;
use crate::digest::sha512_digest;
use crate::codec::encode_request;
use crate::codec::decode_client_error;
use crate::codec::spec_decode_client_error;
use crate::errors::ClientError;
use crate::errors::InternalError;
use crate::message::Action;
use crate::message::Authority;
use crate::message::Data;
use crate::message::MembershipVerdict;
use crate::message::MessageId;
use crate::message::RequestContent;
use crate::message::RequestMessage;
use crate::message::XorName;
use crate::store::AccountStore;

verus! {

/// How long a cached request may wait for its completion, in seconds.
pub const CACHE_TTL_SECS: u64 = 300;

/// How many requests may wait for completion at once.
pub const CACHE_CAPACITY: usize = 1000;

/// The payload a put request carries.
pub open spec fn req_data(request: RequestMessage) -> Data {
    match request.content {
        RequestContent::Put(data, _) => data,
    }
}

/// The operation identifier a put request carries.
pub open spec fn req_id(request: RequestMessage) -> MessageId {
    match request.content {
        RequestContent::Put(_, message_id) => message_id,
    }
}

/// The requesting client's name: the address its source authority is
/// routed by.
pub open spec fn req_client(request: RequestMessage) -> XorName {
    request.src.spec_name()
}

/// `post` extends `pre` by exactly one action.
pub open spec fn appended_one(pre: Seq<Action>, post: Seq<Action>) -> bool {
    post.len() == pre.len() + 1 && post.subrange(0, pre.len() as int) == pre
}

/// A failure response that echoes `request` back to its sender with the
/// encoded error.
pub open spec fn is_put_failure_action(
    a: Action,
    request: RequestMessage,
    e: ClientError,
    id: MessageId,
) -> bool {
    &&& a matches Action::SendPutFailure {
        src,
        dst,
        request: echoed,
        external_error_indicator,
        message_id,
    }
    &&& src == request.dst
    &&& dst == request.src
    &&& echoed == request
    &&& external_error_indicator@ == spec_encode_client_error(e)
    &&& message_id == id
}

/// The accepted put, forwarded toward the group managing the content's own
/// address on behalf of the authority the request addressed.
pub open spec fn is_forward_put_action(
    a: Action,
    request: RequestMessage,
    data: Data,
    id: MessageId,
) -> bool {
    &&& a matches Action::ForwardPut { src, dst, data: forwarded, message_id }
    &&& src == request.dst
    &&& dst == Authority::NaeManager(data.spec_name())
    &&& forwarded == data
    &&& message_id == id
}

/// A success response to the cached request's sender, carrying the digest
/// of the cached request.
pub open spec fn is_put_success_action(a: Action, cached: RequestMessage, id: MessageId) -> bool {
    &&& a matches Action::SendPutSuccess { src, dst, message_hash, message_id }
    &&& src == cached.dst
    &&& dst == cached.src
    &&& message_hash@ == sha512_of(spec_encode_request(cached))
    &&& message_id == id
}

/// The anomalous replacement of a still-pending request, surfaced for the
/// operator's log: the identifier and the entry it had held.
pub open spec fn is_duplicate_report_action(a: Action, id: MessageId, prior: RequestMessage) -> bool {
    &&& a matches Action::ReportDuplicateRegistration { message_id, prior_request }
    &&& message_id == id
    &&& prior_request == prior
}

/// What an accepted put appends: the forwarded put, then — exactly when
/// registration replaced a pending entry, which only an identifier already
/// in the cache can suffer — the duplicate-registration report carrying the
/// replaced request.
pub open spec fn forwarded_effects(
    pre_cache: Map<MessageId, RequestMessage>,
    pre_eff: Seq<Action>,
    post_eff: Seq<Action>,
    request: RequestMessage,
) -> bool {
    &&& post_eff.subrange(0, pre_eff.len() as int) == pre_eff
    &&& post_eff.len() > pre_eff.len()
    &&& is_forward_put_action(
        post_eff[pre_eff.len() as int],
        request,
        req_data(request),
        req_id(request),
    )
    &&& (post_eff.len() == pre_eff.len() + 1 || (post_eff.len() == pre_eff.len() + 2
        && pre_cache.contains_key(req_id(request)) && is_duplicate_report_action(
        post_eff.last(),
        req_id(request),
        pre_cache[req_id(request)],
    )))
    &&& !pre_cache.contains_key(req_id(request)) ==> post_eff.len() == pre_eff.len() + 1
}

/// The request was registered in the correlation cache: the identifier now
/// holds it, and every other surviving entry is unchanged (the bounded
/// cache may have evicted some).
pub open spec fn cache_registered(
    pre: Map<MessageId, RequestMessage>,
    post: Map<MessageId, RequestMessage>,
    id: MessageId,
    request: RequestMessage,
) -> bool {
    &&& post.contains_key(id)
    &&& post[id] == request
    &&& forall|k: MessageId|
        k != id && #[trigger] post.contains_key(k) ==> pre.contains_key(k) && post[k] == pre[k]
}

/// The request was rejected with a client-level error: no account or cache
/// change, one failure response appended, and the error surfaced to the
/// caller.
pub open spec fn put_rejected(
    pre_acc: AccountStore,
    post_acc: AccountStore,
    pre_cache: Map<MessageId, RequestMessage>,
    post_cache: Map<MessageId, RequestMessage>,
    pre_eff: Seq<Action>,
    post_eff: Seq<Action>,
    request: RequestMessage,
    e: ClientError,
    r: Result<(), InternalError>,
) -> bool {
    &&& r == Err::<(), InternalError>(InternalError::Client(e))
    &&& post_acc.entry_seq() == pre_acc.entry_seq()
    &&& post_cache == pre_cache
    &&& appended_one(pre_eff, post_eff)
    &&& is_put_failure_action(post_eff.last(), request, e, req_id(request))
}

/// The request was accepted: the client's account was debited the fixed
/// payment, the put was forwarded, and the request was registered under its
/// identifier.
pub open spec fn put_accepted(
    pre_acc: AccountStore,
    post_acc: AccountStore,
    pre_cache: Map<MessageId, RequestMessage>,
    post_cache: Map<MessageId, RequestMessage>,
    pre_eff: Seq<Action>,
    post_eff: Seq<Action>,
    request: RequestMessage,
    client: XorName,
    r: Result<(), InternalError>,
) -> bool {
    &&& r == Ok::<(), InternalError>(())
    &&& forall|n: XorName| #[trigger] post_acc.spec_contains(n) == pre_acc.spec_contains(n)
    &&& post_acc.spec_get(client).data_stored == pre_acc.spec_get(client).data_stored
        + DEFAULT_PAYMENT
    &&& post_acc.spec_get(client).space_available == pre_acc.spec_get(client).space_available
        - DEFAULT_PAYMENT
    &&& forall|n: XorName|
        n != client && pre_acc.spec_contains(n)
            ==> #[trigger] post_acc.spec_get(n) == pre_acc.spec_get(n)
    &&& cache_registered(pre_cache, post_cache, req_id(request), request)
    &&& forwarded_effects(pre_cache, pre_eff, post_eff, request)
}

/// The common forwarding path for a client that must already hold an
/// account: reject without one, reject when the quota cannot cover the
/// payment, otherwise debit, forward and register.
pub open spec fn put_forward_transition(
    pre_acc: AccountStore,
    post_acc: AccountStore,
    pre_cache: Map<MessageId, RequestMessage>,
    post_cache: Map<MessageId, RequestMessage>,
    pre_eff: Seq<Action>,
    post_eff: Seq<Action>,
    request: RequestMessage,
    r: Result<(), InternalError>,
) -> bool {
    let client = req_client(request);
    if !pre_acc.spec_contains(client) {
        put_rejected(
            pre_acc,
            post_acc,
            pre_cache,
            post_cache,
            pre_eff,
            post_eff,
            request,
            ClientError::NoSuchAccount,
            r,
        )
    } else if pre_acc.spec_get(client).space_available < DEFAULT_PAYMENT {
        put_rejected(
            pre_acc,
            post_acc,
            pre_cache,
            post_cache,
            pre_eff,
            post_eff,
            request,
            ClientError::LowBalance,
            r,
        )
    } else {
        put_accepted(
            pre_acc,
            post_acc,
            pre_cache,
            post_cache,
            pre_eff,
            post_eff,
            request,
            client,
            r,
        )
    }
}

/// Everything a put request may do to the persona, by payload kind: the
/// whole contract of `MaidManager::handle_put`.
pub open spec fn put_transition(
    pre_acc: AccountStore,
    post_acc: AccountStore,
    pre_cache: Map<MessageId, RequestMessage>,
    post_cache: Map<MessageId, RequestMessage>,
    pre_eff: Seq<Action>,
    post_eff: Seq<Action>,
    request: RequestMessage,
    r: Result<(), InternalError>,
) -> bool {
    let client = req_client(request);
    match req_data(request) {
        Data::Plain { .. } => {
            &&& r == Err::<(), InternalError>(InternalError::UnexpectedRequestKind)
            &&& post_acc.entry_seq() == pre_acc.entry_seq()
            &&& post_cache == pre_cache
            &&& post_eff == pre_eff
        },
        Data::Structured { name: _, type_tag } => {
            if type_tag == 0 {
                if pre_acc.spec_contains(client) {
                    put_rejected(
                        pre_acc,
                        post_acc,
                        pre_cache,
                        post_cache,
                        pre_eff,
                        post_eff,
                        request,
                        ClientError::AccountExists,
                        r,
                    )
                } else {
                    // The account is created with the default quota and
                    // immediately debited for this first put.
                    &&& r == Ok::<(), InternalError>(())
                    &&& forall|n: XorName|
                        #[trigger] post_acc.spec_contains(n) == (pre_acc.spec_contains(n) || n
                            == client)
                    &&& post_acc.spec_get(client) == (Account {
                        data_stored: DEFAULT_PAYMENT,
                        space_available: (DEFAULT_ACCOUNT_SIZE - DEFAULT_PAYMENT) as u64,
                    })
                    &&& forall|n: XorName|
                        n != client && pre_acc.spec_contains(n)
                            ==> #[trigger] post_acc.spec_get(n) == pre_acc.spec_get(n)
                    &&& cache_registered(pre_cache, post_cache, req_id(request), request)
                    &&& forwarded_effects(pre_cache, pre_eff, post_eff, request)
                }
            } else {
                put_forward_transition(
                    pre_acc,
                    post_acc,
                    pre_cache,
                    post_cache,
                    pre_eff,
                    post_eff,
                    request,
                    r,
                )
            }
        },
        Data::Immutable { .. } => put_forward_transition(
            pre_acc,
            post_acc,
            pre_cache,
            post_cache,
            pre_eff,
            post_eff,
            request,
            r,
        ),
    }
}

/// The fixed payment was refunded to the account, with the defensive clamp:
/// never more than is currently charged.
pub open spec fn refunded_payment(pre: Account, post: Account) -> bool {
    if pre.data_stored < DEFAULT_PAYMENT {
        post.data_stored == 0 && post.space_available == pre.space_available + pre.data_stored
    } else {
        post.data_stored == pre.data_stored - DEFAULT_PAYMENT && post.space_available
            == pre.space_available + DEFAULT_PAYMENT
    }
}

/// What merging one refresh snapshot does to the store: the snapshot is
/// stored under the client's name and every other account is untouched.
pub open spec fn refresh_transition(
    pre: AccountStore,
    post: AccountStore,
    name: XorName,
    account: Account,
) -> bool {
    &&& post.spec_contains(name)
    &&& post.spec_get(name) == account
    &&& forall|n: XorName|
        #[trigger] post.spec_contains(n) == (pre.spec_contains(n) || n == name)
    &&& forall|n: XorName|
        n != name && pre.spec_contains(n) ==> #[trigger] post.spec_get(n) == pre.spec_get(n)
    &&& post.len() == pre.len() + (if pre.spec_contains(name) {
        0int
    } else {
        1int
    })
}

/// Merging the same snapshot twice leaves the store exactly as merging it
/// once: the same accounts are present, with the same balances.
pub proof fn lemma_refresh_idempotent(
    pre: AccountStore,
    once: AccountStore,
    twice: AccountStore,
    name: XorName,
    account: Account,
)
    requires
        refresh_transition(pre, once, name, account),
        refresh_transition(once, twice, name, account),
    ensures
        forall|n: XorName| #[trigger] twice.spec_contains(n) == once.spec_contains(n),
        forall|n: XorName|
            once.spec_contains(n) ==> #[trigger] twice.spec_get(n) == once.spec_get(n),
        twice.len() == once.len(),
{
    assert forall|n: XorName|
        once.spec_contains(n) implies #[trigger] twice.spec_get(n) == once.spec_get(n) by {
        if n != name {
            assert(twice.spec_get(n) == once.spec_get(n));
        }
    };
}

/// The verdict the routing layer gave for an address: the first entry in
/// the query results that names it, or a failed query where none does
/// (an account this node cannot confirm ownership of is dropped).
pub open spec fn verdict_of(vs: Seq<(XorName, MembershipVerdict)>, name: XorName) -> MembershipVerdict
    decreases vs.len(),
{
    if vs.len() == 0 {
        MembershipVerdict::QueryFailed
    } else if vs[0].0 == name {
        vs[0].1
    } else {
        verdict_of(vs.drop_first(), name)
    }
}

/// A refresh broadcast of one account snapshot, sent as the client's own
/// manager authority.
pub open spec fn is_refresh_broadcast_action(a: Action, name: XorName, account: Account) -> bool {
    &&& a matches Action::SendRefresh { src, serialised_refresh }
    &&& src == Authority::ClientManager(name)
    &&& serialised_refresh@ == spec_encode_refresh(name, account)
}

/// The entries a churn pass retains and re-broadcasts, in store order.
pub open spec fn churn_kept(
    entries: Seq<(XorName, Account)>,
    vs: Seq<(XorName, MembershipVerdict)>,
) -> Seq<(XorName, Account)> {
    entries.filter(
        |e: (XorName, Account)| verdict_of(vs, e.0) == MembershipVerdict::StillResponsible,
    )
}

/// Whether one of the first `i` entries carries `name`.
pub open spec fn prefix_has(s: Seq<(XorName, Account)>, i: int, name: XorName) -> bool {
    exists|k: int| 0 <= k < i && #[trigger] s[k].0 == name
}

/// Extending the prefix by one entry adds exactly that entry's name.
proof fn lemma_prefix_step(s: Seq<(XorName, Account)>, i: int, name: XorName)
    requires
        0 <= i < s.len(),
    ensures
        prefix_has(s, i + 1, name) == (prefix_has(s, i, name) || s[i].0 == name),
{
    if prefix_has(s, i + 1, name) {
        let k = choose|k: int| 0 <= k < i + 1 && #[trigger] s[k].0 == name;
        if k < i {
            assert(prefix_has(s, i, name));
        }
    }
    if prefix_has(s, i, name) {
        let k = choose|k: int| 0 <= k < i && #[trigger] s[k].0 == name;
        assert(0 <= k < i + 1 && s[k].0 == name);
    }
    if s[i].0 == name {
        assert(0 <= i < i + 1 && s[i].0 == name);
    }
}

/// Filtering a sequence extended by one entry keeps the filtered prefix
/// and appends the new entry exactly when it passes.
proof fn lemma_churn_kept_push(
    q: Seq<(XorName, Account)>,
    x: (XorName, Account),
    vs: Seq<(XorName, MembershipVerdict)>,
)
    ensures
        churn_kept(q.push(x), vs) == (if verdict_of(vs, x.0)
            == MembershipVerdict::StillResponsible {
            churn_kept(q, vs).push(x)
        } else {
            churn_kept(q, vs)
        }),
{
    reveal(Seq::filter);
    let qx = q.push(x);
    assert(qx.drop_last() =~= q);
    assert(qx.last() == x);
    assert(churn_kept(qx, vs) == (if verdict_of(vs, qx.last().0)
        == MembershipVerdict::StillResponsible {
        churn_kept(qx.drop_last(), vs).push(qx.last())
    } else {
        churn_kept(qx.drop_last(), vs)
    }));
}

/// Appending one action to a sequence extends it by exactly that action.
proof fn lemma_push_appends(pre: Seq<Action>, a: Action)
    ensures
        appended_one(pre, pre.push(a)),
        pre.push(a).last() == a,
{
    assert(pre.push(a).subrange(0, pre.len() as int) =~= pre);
}

/// The verdict the routing layer gave for `name`: the first matching entry,
/// or a failed query where none matches.
pub fn lookup_verdict(verdicts: &Vec<(XorName, MembershipVerdict)>, name: XorName) -> (r:
    MembershipVerdict)
    ensures
        r == verdict_of(verdicts@, name),
{
    let mut i: usize = 0;
    proof {
        assert(verdicts@.skip(0) =~= verdicts@);
    }
    while i < verdicts.len()
        invariant
            i <= verdicts.len(),
            verdict_of(verdicts@, name) == verdict_of(verdicts@.skip(i as int), name),
        decreases verdicts.len() - i,
    {
        proof {
            assert(verdicts@.skip(i as int)[0] == verdicts@[i as int]);
            assert(verdicts@.skip(i as int).drop_first() =~= verdicts@.skip(i + 1));
        }
        if verdicts[i].0 == name {
            return verdicts[i].1;
        }
        i = i + 1;
    }
    proof {
        assert(verdicts@.skip(i as int).len() == 0);
    }
    MembershipVerdict::QueryFailed
}

/// A request identifier is consumed by whichever completion resolves it:
/// both completion handlers leave the cache without the identifier, so a
/// second completion for the same identifier meets the cache-miss case of
/// their contracts and is reported as a `FailedToFindCachedRequest`
/// internal error rather than answered again.
pub proof fn lemma_completion_consumed_once(cache: Map<MessageId, RequestMessage>, id: MessageId)
    ensures
        !cache.remove(id).contains_key(id),
{
}

/// The account-management persona: the accounts this node is responsible
/// for, and the correlation cache matching completions to forwarded puts.
pub struct MaidManager {
    accounts: AccountStore,
    request_cache: RequestCache,
}

impl MaidManager {
    /// The stored accounts.
    pub closed spec fn spec_accounts(self) -> AccountStore {
        self.accounts
    }

    /// What the correlation cache holds.
    pub closed spec fn spec_cache(self) -> Map<MessageId, RequestMessage> {
        cache_contents(self.request_cache)
    }

    /// The bounds the correlation cache was built with: time-to-live in
    /// seconds and entry capacity.
    pub closed spec fn spec_cache_config(self) -> (u64, usize) {
        cache_config(self.request_cache)
    }

    /// Well-formedness of the whole persona: well-formed accounts, and the
    /// correlation cache bounded by the default time-to-live and capacity.
    pub open spec fn inv(self) -> bool {
        &&& self.spec_accounts().inv()
        &&& self.spec_cache_config() == (CACHE_TTL_SECS, CACHE_CAPACITY)
    }

    /// A fresh persona: no accounts, nothing pending, and the cache bounded
    /// by the default time-to-live and capacity.
    pub fn new() -> (r: MaidManager)
        ensures
            r.inv(),
            r.spec_accounts().len() == 0,
            forall|n: XorName| !r.spec_accounts().spec_contains(n),
            forall|k: MessageId| !r.spec_cache().contains_key(k),
            r.spec_cache_config() == (CACHE_TTL_SECS, CACHE_CAPACITY),
    {
        MaidManager {
            accounts: AccountStore::new(),
            request_cache: cache_new(CACHE_TTL_SECS, CACHE_CAPACITY),
        }
    }

    /// A copy of the account held for a client, if any.
    pub fn account(&self, name: XorName) -> (r: Option<Account>)
        requires
            self.inv(),
        ensures
            r == (if self.spec_accounts().spec_contains(name) {
                Some(self.spec_accounts().spec_get(name))
            } else {
                None::<Account>
            }),
    {
        self.accounts.get_account(name)
    }

    /// How many accounts this node currently holds.
    pub fn account_count(&self) -> (r: usize)
        ensures
            r == self.spec_accounts().len(),
    {
        self.accounts.count()
    }

    /// The names of all clients whose accounts this node holds, in store
    /// order: the addresses a churn pass must query the routing layer for.
    pub fn account_names(&self) -> (r: Vec<XorName>)
        ensures
            r@.len() == self.spec_accounts().len(),
            forall|i: int|
                0 <= i < r@.len() ==> #[trigger] r@[i] == self.spec_accounts().entry_seq()[i].0,
    {
        let mut names: Vec<XorName> = Vec::new();
        let n = self.accounts.count();
        let mut i: usize = 0;
        while i < n
            invariant
                i <= n,
                n == self.accounts.len(),
                names@.len() == i,
                forall|k: int|
                    0 <= k < i ==> #[trigger] names@[k] == self.accounts.entry_seq()[k].0,
            decreases n - i,
        {
            let (name, _) = self.accounts.entry_at(i);
            names.push(name);
            i = i + 1;
        }
        names
    }

    /// Append the failure response that echoes `request` back to its sender.
    fn reply_with_put_failure(
        &self,
        request: &RequestMessage,
        message_id: MessageId,
        error: &ClientError,
        effects: &mut Vec<Action>,
    )
        ensures
            appended_one(old(effects)@, final(effects)@),
            is_put_failure_action(final(effects)@.last(), *request, *error, message_id),
    {
        let external_error_indicator = encode_client_error(error);
        let action = Action::SendPutFailure {
            src: request.dst,
            dst: request.src,
            request: *request,
            external_error_indicator,
            message_id,
        };
        effects.push(action);
        proof {
            lemma_push_appends(old(effects)@, final(effects)@.last());
        }
    }

    /// The common forwarding path: debit the client's account, forward the
    /// put toward the content's address and register the request, or send
    /// the failure response that explains why not.
    fn forward_put_request(
        &mut self,
        client_name: XorName,
        data: Data,
        message_id: MessageId,
        request: &RequestMessage,
        effects: &mut Vec<Action>,
    ) -> (r: Result<(), InternalError>)
        requires
            old(self).inv(),
            client_name == req_client(*request),
            data == req_data(*request),
            message_id == req_id(*request),
        ensures
            final(self).inv(),
            put_forward_transition(
                old(self).spec_accounts(),
                final(self).spec_accounts(),
                old(self).spec_cache(),
                final(self).spec_cache(),
                old(effects)@,
                final(effects)@,
                *request,
                r,
            ),
    {
        let result = self.accounts.debit(client_name, DEFAULT_PAYMENT);
        if let Err(error) = result {
            self.reply_with_put_failure(request, message_id, &error, effects);
            return Err(InternalError::Client(error));
        }
        let action = Action::ForwardPut {
            src: request.dst,
            dst: Authority::NaeManager(data.name()),
            data,
            message_id,
        };
        effects.push(action);
        proof {
            lemma_push_appends(old(effects)@, final(effects)@.last());
        }
        let ghost eff_forwarded = effects@;
        if let Some(prior_request) = cache_insert(&mut self.request_cache, message_id, *request) {
            effects.push(Action::ReportDuplicateRegistration { message_id, prior_request });
            proof {
                lemma_push_appends(eff_forwarded, final(effects)@.last());
                assert(final(effects)@.subrange(0, old(effects)@.len() as int) =~= old(effects)@);
                assert(final(effects)@[old(effects)@.len() as int]
                    == eff_forwarded[old(effects)@.len() as int]);
            }
        }
        Ok(())
    }

    /// Handle a put of immutable content: the account must already exist.
    fn handle_put_immutable_data(
        &mut self,
        request: &RequestMessage,
        effects: &mut Vec<Action>,
    ) -> (r: Result<(), InternalError>)
        requires
            old(self).inv(),
            req_data(*request) matches Data::Immutable { .. },
        ensures
            final(self).inv(),
            put_transition(
                old(self).spec_accounts(),
                final(self).spec_accounts(),
                old(self).spec_cache(),
                final(self).spec_cache(),
                old(effects)@,
                final(effects)@,
                *request,
                r,
            ),
    {
        let RequestContent::Put(data, message_id) = request.content;
        let client_name = request.src.name();
        self.forward_put_request(client_name, data, message_id, request, effects)
    }

    /// Handle a put of structured content. Type tag zero is the
    /// account-creation convention: the account must not exist yet and is
    /// created before the common forwarding path; any other tag requires an
    /// existing account.
    fn handle_put_structured_data(
        &mut self,
        request: &RequestMessage,
        effects: &mut Vec<Action>,
    ) -> (r: Result<(), InternalError>)
        requires
            old(self).inv(),
            req_data(*request) matches Data::Structured { .. },
        ensures
            final(self).inv(),
            put_transition(
                old(self).spec_accounts(),
                final(self).spec_accounts(),
                old(self).spec_cache(),
                final(self).spec_cache(),
                old(effects)@,
                final(effects)@,
                *request,
                r,
            ),
    {
        let RequestContent::Put(data, message_id) = request.content;
        let type_tag = match data {
            Data::Structured { type_tag, .. } => type_tag,
            _ => 0u64,
        };
        let client_name = request.src.name();
        if type_tag == 0 {
            if self.accounts.contains_account(client_name) {
                let error = ClientError::AccountExists;
                self.reply_with_put_failure(request, message_id, &error, effects);
                return Err(InternalError::Client(error));
            }
            self.accounts.insert_account(client_name, Account::default());
        }
        self.forward_put_request(client_name, data, message_id, request, effects)
    }


    /// Handle a downstream success notification: consume the cached request
    /// and answer the original client with a digest of it. A notification
    /// with no pending request is a protocol inconsistency, reported to the
    /// caller with no client response.
    pub fn handle_put_success(&mut self, message_id: MessageId, effects: &mut Vec<Action>) -> (r:
        Result<(), InternalError>)
        requires
            old(self).inv(),
        ensures
            final(self).inv(),
            final(self).spec_accounts().entry_seq() == old(self).spec_accounts().entry_seq(),
            final(self).spec_cache() == old(self).spec_cache().remove(message_id),
            !old(self).spec_cache().contains_key(message_id) ==> r == Err::<(), InternalError>(
                InternalError::FailedToFindCachedRequest(message_id),
            ) && final(effects)@ == old(effects)@,
            old(self).spec_cache().contains_key(message_id) ==> r == Ok::<(), InternalError>(())
                && appended_one(old(effects)@, final(effects)@)
                && is_put_success_action(
                final(effects)@.last(),
                old(self).spec_cache()[message_id],
                message_id,
            ),
    {
        match cache_remove(&mut self.request_cache, message_id) {
            Some(client_request) => {
                let bytes = encode_request(&client_request);
                let message_hash = sha512_digest(&bytes);
                let action = Action::SendPutSuccess {
                    src: client_request.dst,
                    dst: client_request.src,
                    message_hash,
                    message_id,
                };
                effects.push(action);
                proof {
                    lemma_push_appends(old(effects)@, final(effects)@.last());
                }
                Ok(())
            },
            None => Err(InternalError::FailedToFindCachedRequest(message_id)),
        }
    }

    /// Handle a downstream failure notification: consume the cached request,
    /// refund the optimistic debit, and pass the downstream error on to the
    /// original client. A notification with no pending request is a protocol
    /// inconsistency; an account evicted in the interim skips the refund
    /// silently.
    pub fn handle_put_failure(
        &mut self,
        message_id: MessageId,
        external_error_indicator: &[u8],
        effects: &mut Vec<Action>,
    ) -> (r: Result<(), InternalError>)
        requires
            old(self).inv(),
        ensures
            final(self).inv(),
            final(self).spec_cache() == old(self).spec_cache().remove(message_id),
            !old(self).spec_cache().contains_key(message_id) ==> r == Err::<(), InternalError>(
                InternalError::FailedToFindCachedRequest(message_id),
            ) && final(self).spec_accounts().entry_seq() == old(self).spec_accounts().entry_seq()
                && final(effects)@ == old(effects)@,
            old(self).spec_cache().contains_key(message_id) ==> ({
                let cached = old(self).spec_cache()[message_id];
                let client = cached.dst.spec_name();
                let pre_acc = old(self).spec_accounts();
                let post_acc = final(self).spec_accounts();
                &&& !pre_acc.spec_contains(client) ==> r == Ok::<(), InternalError>(())
                    && post_acc.entry_seq() == pre_acc.entry_seq() && final(effects)@ == old(
                    effects,
                )@
                &&& pre_acc.spec_contains(client) ==> ({
                    &&& forall|n: XorName|
                        #[trigger] post_acc.spec_contains(n) == pre_acc.spec_contains(n)
                    &&& refunded_payment(pre_acc.spec_get(client), post_acc.spec_get(client))
                    &&& forall|n: XorName|
                        n != client && pre_acc.spec_contains(n)
                            ==> #[trigger] post_acc.spec_get(n) == pre_acc.spec_get(n)
                    &&& match spec_decode_client_error(external_error_indicator@) {
                        Some(e) => r == Ok::<(), InternalError>(()) && appended_one(
                            old(effects)@,
                            final(effects)@,
                        ) && is_put_failure_action(final(effects)@.last(), cached, e, message_id),
                        None => r == Err::<(), InternalError>(InternalError::FailedSerialisation)
                            && final(effects)@ == old(effects)@,
                    }
                })
            }),
    {
        match cache_remove(&mut self.request_cache, message_id) {
            Some(client_request) => {
                let client_name = client_request.dst.name();
                let refunded = self.accounts.refund(client_name, DEFAULT_PAYMENT);
                if !refunded {
                    return Ok(());
                }
                match decode_client_error(external_error_indicator) {
                    Some(error) => {
                        self.reply_with_put_failure(&client_request, message_id, &error, effects);
                        Ok(())
                    },
                    None => Err(InternalError::FailedSerialisation),
                }
            },
            None => Err(InternalError::FailedToFindCachedRequest(message_id)),
        }
    }

    /// Merge an externally broadcast account snapshot: last writer wins,
    /// unconditionally replacing any local account for that client.
    pub fn handle_refresh(&mut self, name: XorName, account: Account)
        requires
            old(self).inv(),
            account.inv(),
        ensures
            final(self).inv(),
            final(self).spec_cache() == old(self).spec_cache(),
            refresh_transition(
                old(self).spec_accounts(),
                final(self).spec_accounts(),
                name,
                account,
            ),
    {
        self.accounts.insert_account(name, account);
    }


    /// Append the refresh broadcast for one retained account.
    fn send_refresh(&self, name: XorName, account: &Account, effects: &mut Vec<Action>)
        ensures
            appended_one(old(effects)@, final(effects)@),
            is_refresh_broadcast_action(final(effects)@.last(), name, *account),
    {
        let serialised_refresh = encode_refresh(name, account);
        let action = Action::SendRefresh { src: Authority::ClientManager(name), serialised_refresh };
        effects.push(action);
        proof {
            lemma_push_appends(old(effects)@, final(effects)@.last());
        }
    }

    /// Reconcile the store with a membership change: keep and re-broadcast
    /// every account the routing layer still holds this node responsible
    /// for, and drop every other account, including any whose query failed.
    pub fn handle_churn(
        &mut self,
        verdicts: &Vec<(XorName, MembershipVerdict)>,
        effects: &mut Vec<Action>,
    )
        requires
            old(self).inv(),
        ensures
            final(self).inv(),
            final(self).spec_cache() == old(self).spec_cache(),
            forall|n: XorName|
                #[trigger] final(self).spec_accounts().spec_contains(n) == (old(
                    self,
                ).spec_accounts().spec_contains(n) && verdict_of(verdicts@, n)
                    == MembershipVerdict::StillResponsible),
            forall|n: XorName|
                final(self).spec_accounts().spec_contains(n)
                    ==> #[trigger] final(self).spec_accounts().spec_get(n) == old(
                    self,
                ).spec_accounts().spec_get(n),
            final(effects)@.len() == old(effects)@.len() + churn_kept(
                old(self).spec_accounts().entry_seq(),
                verdicts@,
            ).len(),
            final(effects)@.subrange(0, old(effects)@.len() as int) == old(effects)@,
            forall|j: int|
                0 <= j < churn_kept(old(self).spec_accounts().entry_seq(), verdicts@).len()
                    ==> is_refresh_broadcast_action(
                    #[trigger] final(effects)@[old(effects)@.len() + j],
                    churn_kept(old(self).spec_accounts().entry_seq(), verdicts@)[j].0,
                    churn_kept(old(self).spec_accounts().entry_seq(), verdicts@)[j].1,
                ),
    {
        let ghost s = self.accounts.entry_seq();
        let ghost vs = verdicts@;
        let ghost pre_eff = effects@;
        let mut kept_store = AccountStore::new();
        let n = self.accounts.count();
        let mut i: usize = 0;
        while i < n
            invariant
                i <= n,
                n == self.accounts.len(),
                self.accounts.inv(),
                s == self.accounts.entry_seq(),
                vs == verdicts@,
                kept_store.inv(),
                forall|m: XorName|
                    #[trigger] kept_store.spec_contains(m) == (prefix_has(s, i as int, m)
                        && verdict_of(vs, m) == MembershipVerdict::StillResponsible),
                forall|m: XorName|
                    kept_store.spec_contains(m) ==> #[trigger] kept_store.spec_get(m)
                        == self.accounts.spec_get(m),
                effects@.len() == pre_eff.len() + churn_kept(s.subrange(0, i as int), vs).len(),
                effects@.subrange(0, pre_eff.len() as int) == pre_eff,
                forall|j: int|
                    0 <= j < churn_kept(s.subrange(0, i as int), vs).len()
                        ==> is_refresh_broadcast_action(
                        #[trigger] effects@[pre_eff.len() + j],
                        churn_kept(s.subrange(0, i as int), vs)[j].0,
                        churn_kept(s.subrange(0, i as int), vs)[j].1,
                    ),
            decreases n - i,
        {
            let (name, account) = self.accounts.entry_at(i);
            let ghost pref = s.subrange(0, i as int);
            let ghost kept_pref = churn_kept(pref, vs);
            let ghost eff0 = effects@;
            proof {
                assert(s.subrange(0, i + 1) =~= pref.push(s[i as int]));
                lemma_churn_kept_push(pref, s[i as int], vs);
            }
            let verdict = lookup_verdict(verdicts, name);
            if matches!(verdict, MembershipVerdict::StillResponsible) {
                self.send_refresh(name, &account, effects);
                proof {
                    self.accounts.lemma_key_at(i as int, name);
                    assert(effects@ =~= eff0.push(effects@.last()));
                }
                kept_store.insert_account(name, account);
            }
            proof {
                let kept_next = churn_kept(s.subrange(0, i + 1), vs);
                assert(kept_next == (if verdict_of(vs, name)
                    == MembershipVerdict::StillResponsible {
                    kept_pref.push(s[i as int])
                } else {
                    kept_pref
                }));
                assert forall|m: XorName|
                    #[trigger] kept_store.spec_contains(m) == (prefix_has(s, i + 1, m)
                        && verdict_of(vs, m) == MembershipVerdict::StillResponsible) by {
                    lemma_prefix_step(s, i as int, m);
                };
                assert(effects@.subrange(0, pre_eff.len() as int) =~= pre_eff);
                assert forall|j: int| 0 <= j < kept_next.len()
                    implies is_refresh_broadcast_action(
                        #[trigger] effects@[pre_eff.len() + j],
                        kept_next[j].0,
                        kept_next[j].1,
                    ) by {
                    if j < kept_pref.len() {
                        assert(eff0[pre_eff.len() + j] == effects@[pre_eff.len() + j]);
                        assert(is_refresh_broadcast_action(
                            eff0[pre_eff.len() + j],
                            kept_pref[j].0,
                            kept_pref[j].1,
                        ));
                    } else {
                        assert(kept_next[j] == s[i as int]);
                        assert(effects@[pre_eff.len() + j] == effects@.last());
                    }
                };
            }
            i = i + 1;
        }
        proof {
            assert(s.subrange(0, n as int) =~= s);
        }
        self.accounts = kept_store;
        proof {
            assert forall|m: XorName|
                #[trigger] final(self).spec_accounts().spec_contains(m) == (old(
                    self,
                ).spec_accounts().spec_contains(m) && verdict_of(vs, m)
                    == MembershipVerdict::StillResponsible) by {
                if prefix_has(s, n as int, m) {
                    let k = choose|k: int| 0 <= k < n && #[trigger] s[k].0 == m;
                    assert(old(self).spec_accounts().spec_contains(m));
                }
                if old(self).spec_accounts().spec_contains(m) {
                    let k = old(self).spec_accounts().index_of(m);
                    assert(0 <= k < n && s[k].0 == m);
                    assert(prefix_has(s, n as int, m));
                }
            };
        }
    }

    /// Handle an inbound put request: dispatch on the payload kind, treat
    /// any unexpected kind as an internal defect without touching any state.
    pub fn handle_put(&mut self, request: &RequestMessage, effects: &mut Vec<Action>) -> (r:
        Result<(), InternalError>)
        requires
            old(self).inv(),
        ensures
            final(self).inv(),
            put_transition(
                old(self).spec_accounts(),
                final(self).spec_accounts(),
                old(self).spec_cache(),
                final(self).spec_cache(),
                old(effects)@,
                final(effects)@,
                *request,
                r,
            ),
    {
        let RequestContent::Put(data, _) = request.content;
        match data {
            Data::Immutable { .. } => self.handle_put_immutable_data(request, effects),
            Data::Structured { .. } => self.handle_put_structured_data(request, effects),
            Data::Plain { .. } => Err(InternalError::UnexpectedRequestKind),
        }
    }
}

} // verus!
