use vstd::prelude::*;

use crate::dispatch::AccountHandle;

verus! {

/// A token mint account with the program that owns it.
#[derive(Debug, Clone, Copy, PartialEq, Eq, Structural)]
pub struct Mint {
    pub account_info: AccountHandle,
    pub token_program: AccountHandle,
}

/// A token metadata account with the program that owns it.
#[derive(Debug, Clone, Copy, PartialEq, Eq, Structural)]
pub struct Metadata {
    pub account_info: AccountHandle,
    pub token_metadata_program: AccountHandle,
}

/// A mint and its metadata, handled together; account queries answer for the mint.
#[derive(Debug, Clone, Copy, PartialEq, Eq, Structural)]
pub struct Nft {
    pub mint: Mint,
    pub metadata: Metadata,
}

impl Nft {
    pub fn new(
        mint_account: AccountHandle,
        metadata_account: AccountHandle,
        token_program: AccountHandle,
        token_metadata_program: AccountHandle,
    ) -> (r: Nft)
        ensures
            r.mint == (Mint { account_info: mint_account, token_program }),
            r.metadata == (Metadata { account_info: metadata_account, token_metadata_program }),
    {
        Nft {
            mint: Mint { account_info: mint_account, token_program },
            metadata: Metadata { account_info: metadata_account, token_metadata_program },
        }
    }

    pub fn key(&self) -> (r: u64)
        ensures
            r == self.mint.account_info.key,
    {
        self.mint.account_info.key
    }

    pub fn is_signer(&self) -> (r: bool)
        ensures
            r == self.mint.account_info.is_signer,
    {
        self.mint.account_info.is_signer
    }

    pub fn is_writable(&self) -> (r: bool)
        ensures
            r == self.mint.account_info.is_writable,
    {
        self.mint.account_info.is_writable
    }
}

} // verus!
