use vstd::prelude::*;

use crate::errors::ClientError;

verus! {

/// Default quota granted to a freshly created account, in bytes (1 GiB).
pub const DEFAULT_ACCOUNT_SIZE: u64 = 1_073_741_824;

/// Fixed charge debited from an account for each accepted put, in bytes (1 MiB).
pub const DEFAULT_PAYMENT: u64 = 1_048_576;

/// Per-client storage quota bookkeeping: how many bytes are currently charged
/// to the client and how many remain available.
#[derive(Clone, Copy, PartialEq, Eq, Structural, Debug)]
pub struct Account {
    pub data_stored: u64,
    pub space_available: u64,
}

impl Account {
    /// Well-formedness: the two balances can be summed without overflow, so
    /// debits and refunds move value between them exactly.
    pub open spec fn inv(self) -> bool {
        self.data_stored + self.space_available <= u64::MAX
    }

    /// The conserved quantity: charged plus remaining quota.
    pub open spec fn total(self) -> int {
        self.data_stored + self.space_available
    }

    /// Debit `size` bytes from the available quota. Fails exactly when the
    /// available quota is too small, in which case nothing changes.
    pub fn put_data(&mut self, size: u64) -> (r: Result<(), ClientError>)
        requires
            old(self).inv(),
        ensures
            final(self).inv(),
            final(self).total() == old(self).total(),
            r == (if size > old(self).space_available {
                Err::<(), ClientError>(ClientError::LowBalance)
            } else {
                Ok::<(), ClientError>(())
            }),
            size > old(self).space_available ==> *final(self) == *old(self),
            size <= old(self).space_available
                ==> final(self).data_stored == old(self).data_stored + size
                && final(self).space_available == old(self).space_available - size,
            *final(self) == spec_debit(*old(self), size),
    {
        if size > self.space_available {
            return Err(ClientError::LowBalance);
        }
        self.data_stored = self.data_stored + size;
        self.space_available = self.space_available - size;
        Ok(())
    }

    /// Refund `size` bytes of charged storage. Saturating by design: a refund
    /// larger than what is currently charged clamps to the charged amount, so
    /// the account is never credited more than was ever debited.
    pub fn delete_data(&mut self, size: u64)
        requires
            old(self).inv(),
        ensures
            final(self).inv(),
            final(self).total() == old(self).total(),
            old(self).data_stored < size ==> final(self).data_stored == 0
                && final(self).space_available == old(self).space_available + old(self).data_stored,
            old(self).data_stored >= size
                ==> final(self).data_stored == old(self).data_stored - size
                && final(self).space_available == old(self).space_available + size,
            *final(self) == spec_refund(*old(self), size),
    {
        if self.data_stored < size {
            self.space_available = self.space_available + self.data_stored;
            self.data_stored = 0;
        } else {
            self.data_stored = self.data_stored - size;
            self.space_available = self.space_available + size;
        }
    }
}

impl Default for Account {
    /// A fresh account: nothing stored, the default quota available.
    fn default() -> (r: Account)
        ensures
            r.data_stored == 0,
            r.space_available == DEFAULT_ACCOUNT_SIZE,
            r.inv(),
    {
        Account { data_stored: 0, space_available: DEFAULT_ACCOUNT_SIZE }
    }
}

/// One quota operation: a debit charged for a put, or a refund credited on
/// a downstream failure.
#[derive(Clone, Copy, PartialEq, Eq, Structural, Debug)]
pub enum AccountOp {
    Debit(u64),
    Refund(u64),
}

/// What `Account::put_data` leaves behind: unchanged on an uncovered
/// charge, otherwise the size moved from available to stored.
pub open spec fn spec_debit(a: Account, size: u64) -> Account {
    if size > a.space_available {
        a
    } else {
        Account {
            data_stored: (a.data_stored + size) as u64,
            space_available: (a.space_available - size) as u64,
        }
    }
}

/// What `Account::delete_data` leaves behind: the size moved back from
/// stored to available, clamped to what is actually stored.
pub open spec fn spec_refund(a: Account, size: u64) -> Account {
    if a.data_stored < size {
        Account {
            data_stored: 0,
            space_available: (a.space_available + a.data_stored) as u64,
        }
    } else {
        Account {
            data_stored: (a.data_stored - size) as u64,
            space_available: (a.space_available + size) as u64,
        }
    }
}

/// One operation applied to an account.
pub open spec fn apply_op(a: Account, op: AccountOp) -> Account {
    match op {
        AccountOp::Debit(size) => spec_debit(a, size),
        AccountOp::Refund(size) => spec_refund(a, size),
    }
}

/// A whole history of operations applied in order.
pub open spec fn apply_ops(a: Account, ops: Seq<AccountOp>) -> Account
    decreases ops.len(),
{
    if ops.len() == 0 {
        a
    } else {
        apply_ops(apply_op(a, ops[0]), ops.drop_first())
    }
}

/// However debits and refunds interleave — matched pairs, refunds smaller
/// than their debit, even refunds the clamp truncates — the sum of charged
/// and available bytes never changes. An account created with the default
/// quota therefore always accounts for exactly that quota.
pub proof fn lemma_total_conserved(a: Account, ops: Seq<AccountOp>)
    requires
        a.inv(),
    ensures
        apply_ops(a, ops).inv(),
        apply_ops(a, ops).total() == a.total(),
    decreases ops.len(),
{
    if ops.len() > 0 {
        let next = apply_op(a, ops[0]);
        assert(next.inv() && next.total() == a.total());
        lemma_total_conserved(next, ops.drop_first());
    }
}

} // verus!
