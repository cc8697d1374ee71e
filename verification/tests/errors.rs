use nft_barter::errors::{MyError, Refusal, ERROR_CODE_OFFSET};

fn all_errors() -> Vec<MyError> {
    vec![
        MyError::NftAmountMismatch,
        MyError::NotProvidedInitializerAssets,
        MyError::NotProvidedTakerAssets,
        MyError::UninitializedAssociatedToken,
        MyError::IncorrectAccountInfoOwner,
        MyError::AssociatedTokenPublicKeyMismatch,
        MyError::NotFoundNft,
        MyError::VaultAccountBumpsMismatch,
        MyError::PdaPublicKeyMismatch,
        MyError::AssociatedAuthorityMismatch,
        MyError::InitializerAdditionalSolAmountMismatch,
        MyError::TakerAdditionalSolAmountMismatch,
        MyError::FoundNft,
        MyError::MintPublicKeyMismatch,
        MyError::InitializerInsufficientFunds,
        MyError::TakerInsufficientFunds,
        MyError::InitializerPublicKeyMismatch,
        MyError::TakerPublicKeyMismatch,
    ]
}

#[test]
fn error_codes_start_at_the_offset() {
    assert_eq!(ERROR_CODE_OFFSET, 6000);
    assert_eq!(MyError::NftAmountMismatch.code(), 6000);
    assert_eq!(MyError::AssociatedTokenPublicKeyMismatch.code(), 6005);
    assert_eq!(MyError::InitializerAdditionalSolAmountMismatch.code(), 6010);
    assert_eq!(MyError::TakerInsufficientFunds.code(), 6015);
    assert_eq!(MyError::TakerPublicKeyMismatch.code(), 6017);
}

#[test]
fn error_codes_follow_the_declaration() {
    let errors = all_errors();
    for (position, error) in errors.iter().enumerate() {
        assert_eq!(error.code(), 6000 + position as u32);
    }
}

#[test]
fn error_messages_are_the_names() {
    assert_eq!(MyError::NftAmountMismatch.message(), "NftAmountMismatch");
    assert_eq!(MyError::FoundNft.message(), "FoundNft");
    assert_eq!(MyError::NotFoundNft.message(), "NotFoundNft");
    assert_eq!(
        MyError::InitializerAdditionalSolAmountMismatch.message(),
        "InitializerAdditionalSolAmountMismatch"
    );
    for error in all_errors() {
        assert_eq!(error.message(), format!("{:?}", error));
    }
}

#[test]
fn refusals_compare_by_their_class() {
    assert_eq!(Refusal::Check(MyError::NotFoundNft), Refusal::Check(MyError::NotFoundNft));
    assert_ne!(Refusal::Check(MyError::NotFoundNft), Refusal::Check(MyError::FoundNft));
    assert_ne!(Refusal::Check(MyError::NotFoundNft), Refusal::InvalidAccountData);
}
