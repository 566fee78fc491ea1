//! The account under which the ledger holds the pool.

use vstd::prelude::*;
use sp_runtime::traits::AccountIdConversion;
use sp_runtime::ModuleId;
use crate::types::AccountId;

verus! {

/// The account that stands for the module named `id`: the number whose eight
/// bytes, lowest first, are the letters `modl` and then the first four bytes
/// of the name.
pub open spec fn module_account(id: Seq<u8>) -> AccountId {
    (0x6c64_6f6d + id[0] * 0x1_0000_0000 + id[1] * 0x100_0000_0000 + id[2] * 0x1_0000_0000_0000
        + id[3] * 0x100_0000_0000_0000) as AccountId
}

/// Calls `sp_runtime::traits::AccountIdConversion::into_account` on the
/// `sp_runtime::ModuleId` of these eight bytes, for an account that is a
/// `u64`. The conversion encodes the tag `modl` and the identifier one after
/// the other and decodes the front of those bytes as the account; a `u64` is
/// decoded from eight bytes, lowest first. The contract claims that value.
#[verifier::external_body]
pub(crate) fn into_account(id: &[u8; 8]) -> (account: AccountId)
    ensures
        account == module_account(id@),
{
    ModuleId(*id).into_account()
}

} // verus!
