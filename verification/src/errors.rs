//! The reasons for which an operation is refused.

use vstd::prelude::*;

verus! {

/// The protocol's own error classes, in the order of their numbers.
#[derive(Clone, Copy, Debug, PartialEq, Eq, Structural)]
pub enum MyError {
    NftAmountMismatch,
    NotProvidedInitializerAssets,
    NotProvidedTakerAssets,
    UninitializedAssociatedToken,
    IncorrectAccountInfoOwner,
    AssociatedTokenPublicKeyMismatch,
    NotFoundNft,
    VaultAccountBumpsMismatch,
    PdaPublicKeyMismatch,
    AssociatedAuthorityMismatch,
    InitializerAdditionalSolAmountMismatch,
    TakerAdditionalSolAmountMismatch,
    FoundNft,
    MintPublicKeyMismatch,
    InitializerInsufficientFunds,
    TakerInsufficientFunds,
    InitializerPublicKeyMismatch,
    TakerPublicKeyMismatch,
}

/// The number below which the host keeps its own error codes.
pub const ERROR_CODE_OFFSET: u32 = 6000;

impl MyError {
    /// The position of the class in the declaration, from zero.
    pub open spec fn ordinal(self) -> nat {
        match self {
            MyError::NftAmountMismatch => 0,
            MyError::NotProvidedInitializerAssets => 1,
            MyError::NotProvidedTakerAssets => 2,
            MyError::UninitializedAssociatedToken => 3,
            MyError::IncorrectAccountInfoOwner => 4,
            MyError::AssociatedTokenPublicKeyMismatch => 5,
            MyError::NotFoundNft => 6,
            MyError::VaultAccountBumpsMismatch => 7,
            MyError::PdaPublicKeyMismatch => 8,
            MyError::AssociatedAuthorityMismatch => 9,
            MyError::InitializerAdditionalSolAmountMismatch => 10,
            MyError::TakerAdditionalSolAmountMismatch => 11,
            MyError::FoundNft => 12,
            MyError::MintPublicKeyMismatch => 13,
            MyError::InitializerInsufficientFunds => 14,
            MyError::TakerInsufficientFunds => 15,
            MyError::InitializerPublicKeyMismatch => 16,
            MyError::TakerPublicKeyMismatch => 17,
        }
    }

    /// The stable number under which the class is reported.
    pub fn code(&self) -> (c: u32)
        ensures
            c == ERROR_CODE_OFFSET + self.ordinal(),
    {
        let ordinal: u32 = match self {
            MyError::NftAmountMismatch => 0,
            MyError::NotProvidedInitializerAssets => 1,
            MyError::NotProvidedTakerAssets => 2,
            MyError::UninitializedAssociatedToken => 3,
            MyError::IncorrectAccountInfoOwner => 4,
            MyError::AssociatedTokenPublicKeyMismatch => 5,
            MyError::NotFoundNft => 6,
            MyError::VaultAccountBumpsMismatch => 7,
            MyError::PdaPublicKeyMismatch => 8,
            MyError::AssociatedAuthorityMismatch => 9,
            MyError::InitializerAdditionalSolAmountMismatch => 10,
            MyError::TakerAdditionalSolAmountMismatch => 11,
            MyError::FoundNft => 12,
            MyError::MintPublicKeyMismatch => 13,
            MyError::InitializerInsufficientFunds => 14,
            MyError::TakerInsufficientFunds => 15,
            MyError::InitializerPublicKeyMismatch => 16,
            MyError::TakerPublicKeyMismatch => 17,
        };
        ERROR_CODE_OFFSET + ordinal
    }

    /// The text under which the class is reported: its own name.
    pub open spec fn label(self) -> Seq<char> {
        match self {
            MyError::NftAmountMismatch => "NftAmountMismatch"@,
            MyError::NotProvidedInitializerAssets => "NotProvidedInitializerAssets"@,
            MyError::NotProvidedTakerAssets => "NotProvidedTakerAssets"@,
            MyError::UninitializedAssociatedToken => "UninitializedAssociatedToken"@,
            MyError::IncorrectAccountInfoOwner => "IncorrectAccountInfoOwner"@,
            MyError::AssociatedTokenPublicKeyMismatch => "AssociatedTokenPublicKeyMismatch"@,
            MyError::NotFoundNft => "NotFoundNft"@,
            MyError::VaultAccountBumpsMismatch => "VaultAccountBumpsMismatch"@,
            MyError::PdaPublicKeyMismatch => "PdaPublicKeyMismatch"@,
            MyError::AssociatedAuthorityMismatch => "AssociatedAuthorityMismatch"@,
            MyError::InitializerAdditionalSolAmountMismatch => "InitializerAdditionalSolAmountMismatch"@,
            MyError::TakerAdditionalSolAmountMismatch => "TakerAdditionalSolAmountMismatch"@,
            MyError::FoundNft => "FoundNft"@,
            MyError::MintPublicKeyMismatch => "MintPublicKeyMismatch"@,
            MyError::InitializerInsufficientFunds => "InitializerInsufficientFunds"@,
            MyError::TakerInsufficientFunds => "TakerInsufficientFunds"@,
            MyError::InitializerPublicKeyMismatch => "InitializerPublicKeyMismatch"@,
            MyError::TakerPublicKeyMismatch => "TakerPublicKeyMismatch"@,
        }
    }

    /// The message that accompanies the code.
    pub fn message(&self) -> (s: &'static str)
        ensures
            s@ == self.label(),
    {
        match self {
            MyError::NftAmountMismatch => "NftAmountMismatch",
            MyError::NotProvidedInitializerAssets => "NotProvidedInitializerAssets",
            MyError::NotProvidedTakerAssets => "NotProvidedTakerAssets",
            MyError::UninitializedAssociatedToken => "UninitializedAssociatedToken",
            MyError::IncorrectAccountInfoOwner => "IncorrectAccountInfoOwner",
            MyError::AssociatedTokenPublicKeyMismatch => "AssociatedTokenPublicKeyMismatch",
            MyError::NotFoundNft => "NotFoundNft",
            MyError::VaultAccountBumpsMismatch => "VaultAccountBumpsMismatch",
            MyError::PdaPublicKeyMismatch => "PdaPublicKeyMismatch",
            MyError::AssociatedAuthorityMismatch => "AssociatedAuthorityMismatch",
            MyError::InitializerAdditionalSolAmountMismatch => "InitializerAdditionalSolAmountMismatch",
            MyError::TakerAdditionalSolAmountMismatch => "TakerAdditionalSolAmountMismatch",
            MyError::FoundNft => "FoundNft",
            MyError::MintPublicKeyMismatch => "MintPublicKeyMismatch",
            MyError::InitializerInsufficientFunds => "InitializerInsufficientFunds",
            MyError::TakerInsufficientFunds => "TakerInsufficientFunds",
            MyError::InitializerPublicKeyMismatch => "InitializerPublicKeyMismatch",
            MyError::TakerPublicKeyMismatch => "TakerPublicKeyMismatch",
        }
    }
}

/// Why an operation was refused.
#[derive(Clone, Copy, Debug, PartialEq, Eq, Structural)]
pub enum Refusal {
    /// One of the protocol's own checks failed.
    Check(MyError),
    /// An account's data does not hold a token account record.
    InvalidAccountData,
    /// The party on whose word the operation acts has not signed the call.
    MissingSignature,
}

} // verus!
