use icp_backend::errors::{ErrorKind, StoreError};

#[test]
fn refusals_for_want_of_a_record_are_not_found() {
    assert_eq!(StoreError::UserNotFound.kind(), ErrorKind::NotFound);
    assert_eq!(StoreError::ProductNotFound.kind(), ErrorKind::NotFound);
}

#[test]
fn refusals_for_want_of_a_right_are_unauthorized() {
    assert_eq!(StoreError::AnonymousCaller.kind(), ErrorKind::Unauthorized);
    assert_eq!(StoreError::AdminRequired.kind(), ErrorKind::Unauthorized);
    assert_eq!(
        StoreError::CannotRegisterProducts.kind(),
        ErrorKind::Unauthorized
    );
    assert_eq!(
        StoreError::CannotUpdateSupplyChain.kind(),
        ErrorKind::Unauthorized
    );
    assert_eq!(
        StoreError::CannotManagePartners.kind(),
        ErrorKind::Unauthorized
    );
}

#[test]
fn every_refusal_has_its_text() {
    assert_eq!(
        StoreError::AnonymousCaller.message(),
        "Anonymous users cannot register"
    );
    assert_eq!(
        StoreError::AdminRequired.message(),
        "Unauthorized: Admin access required"
    );
    assert_eq!(
        StoreError::CannotRegisterProducts.message(),
        "Unauthorized: Cannot register products"
    );
    assert_eq!(
        StoreError::CannotUpdateSupplyChain.message(),
        "Unauthorized: Cannot update supply chain"
    );
    assert_eq!(
        StoreError::CannotManagePartners.message(),
        "Unauthorized: Cannot manage partners"
    );
    assert_eq!(StoreError::UserNotFound.message(), "User not found");
    assert_eq!(StoreError::ProductNotFound.message(), "Product not found");
}
