//! Why an operation of the registry was refused.

use vstd::prelude::*;
use vstd::string::*;

verus! {

/// The two classes of refusal.
#[derive(Clone, Copy, Debug, PartialEq, Eq, Structural)]
pub enum ErrorKind {
    /// The caller may not do what it asked for.
    Unauthorized,
    /// No record is stored under the key that was given.
    NotFound,
}

/// Why an operation was refused. A refused operation changes nothing.
#[derive(Clone, Copy, Debug, PartialEq, Eq, Structural)]
pub enum StoreError {
    /// An unauthenticated caller tried to register.
    AnonymousCaller,
    /// The caller is not an administrator.
    AdminRequired,
    /// The caller lacks the capability to register products.
    CannotRegisterProducts,
    /// The caller lacks the capability to record events.
    CannotUpdateSupplyChain,
    /// The caller lacks the capability to manage partners.
    CannotManagePartners,
    /// No user is registered under the identity.
    UserNotFound,
    /// No product is registered under the identifier.
    ProductNotFound,
}

impl StoreError {
    /// The class of this refusal.
    pub open spec fn spec_kind(self) -> ErrorKind {
        match self {
            StoreError::UserNotFound | StoreError::ProductNotFound => ErrorKind::NotFound,
            _ => ErrorKind::Unauthorized,
        }
    }

    /// The class of this refusal.
    #[verifier::when_used_as_spec(spec_kind)]
    pub fn kind(self) -> (kind: ErrorKind)
        ensures
            kind == self.spec_kind(),
    {
        match self {
            StoreError::UserNotFound | StoreError::ProductNotFound => ErrorKind::NotFound,
            _ => ErrorKind::Unauthorized,
        }
    }

    /// The text that a caller is shown.
    pub open spec fn spec_message(self) -> Seq<char> {
        match self {
            StoreError::AnonymousCaller => "Anonymous users cannot register"@,
            StoreError::AdminRequired => "Unauthorized: Admin access required"@,
            StoreError::CannotRegisterProducts => "Unauthorized: Cannot register products"@,
            StoreError::CannotUpdateSupplyChain => "Unauthorized: Cannot update supply chain"@,
            StoreError::CannotManagePartners => "Unauthorized: Cannot manage partners"@,
            StoreError::UserNotFound => "User not found"@,
            StoreError::ProductNotFound => "Product not found"@,
        }
    }

    /// The text that a caller is shown.
    pub fn message(self) -> (text: String)
        ensures
            text@ == self.spec_message(),
    {
        match self {
            StoreError::AnonymousCaller => String::from_str("Anonymous users cannot register"),
            StoreError::AdminRequired => String::from_str("Unauthorized: Admin access required"),
            StoreError::CannotRegisterProducts => String::from_str(
                "Unauthorized: Cannot register products",
            ),
            StoreError::CannotUpdateSupplyChain => String::from_str(
                "Unauthorized: Cannot update supply chain",
            ),
            StoreError::CannotManagePartners => String::from_str(
                "Unauthorized: Cannot manage partners",
            ),
            StoreError::UserNotFound => String::from_str("User not found"),
            StoreError::ProductNotFound => String::from_str("Product not found"),
        }
    }
}

} // verus!
