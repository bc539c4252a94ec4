use crate::primitives::Address;
use vstd::prelude::*;

verus! {

/// The first identifier that a non-fungible token can get.
pub const MIN_NFT_TOKEN_ID: u32 = 65536;

/// The balance slot that holds a counter: on the storage account the next
/// identifier to hand out, on any other account the number of tokens it minted.
pub const NFT_TOKEN_ID: u32 = 2147483647;

/// The account that keeps the books of the non-fungible tokens.
pub const NFT_STORAGE_ACCOUNT_ID: u32 = 16777215;

/// The greatest identifier an account can have.
pub const MAX_ACCOUNT_ID: u32 = 16777215;

/// The address of the storage account: twenty bytes `0xff`.
#[verifier::when_used_as_spec(spec_nft_storage_account_address)]
pub fn nft_storage_account_address() -> (r: Address)
    ensures
        r == spec_nft_storage_account_address(),
{
    Address { bytes: [0xffu8; 20] }
}

/// The address of the storage account, as a value of specifications.
pub open spec fn spec_nft_storage_account_address() -> Address {
    Address { bytes: vstd::array::spec_array_fill_for_copy_type::<u8, 20>(0xffu8) }
}

} // verus!
