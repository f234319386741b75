//! The closed sets of roles, stages and statuses, and the capability record.

use vstd::prelude::*;

verus! {

/// What a registered user is in the supply chain.
#[derive(Clone, Copy, Debug, PartialEq, Eq, Structural)]
pub enum UserRole {
    Manufacturer,
    LogisticsProvider,
    Retailer,
    QualityAssurance,
    SupplyChainManager,
    Admin,
    Consumer,
}

/// The capabilities that gate the write operations.
#[derive(Clone, Copy, Debug, PartialEq, Eq, Structural)]
pub struct UserPermissions {
    pub can_register_products: bool,
    pub can_update_supply_chain: bool,
    pub can_manage_partners: bool,
    pub can_view_analytics: bool,
    pub can_verify_users: bool,
}

/// Where a product currently is in its life.
#[derive(Clone, Copy, Debug, PartialEq, Eq, Structural)]
pub enum ProductStatus {
    Manufacturing,
    InTransit,
    Delivered,
    Recalled,
}

/// A step of a product's physical journey.
#[derive(Clone, Copy, Debug, PartialEq, Eq, Structural)]
pub enum SupplyChainStage {
    RawMaterialSourcing,
    Manufacturing,
    QualityControl,
    Packaging,
    Shipping,
    Distribution,
    Retail,
}

/// The outcome recorded with a single event.
#[derive(Clone, Copy, Debug, PartialEq, Eq, Structural)]
pub enum EventStatus {
    Pending,
    InProgress,
    Completed,
    Failed,
}

/// What kind of company a partner is.
#[derive(Clone, Copy, Debug, PartialEq, Eq, Structural)]
pub enum PartnerType {
    Manufacturer,
    Supplier,
    LogisticsProvider,
    Distributor,
    Retailer,
    CertificationBody,
}

/// The status of a product whose last event was at `stage`. No stage leads to
/// `Recalled`.
pub open spec fn stage_to_status(stage: SupplyChainStage) -> ProductStatus {
    match stage {
        SupplyChainStage::RawMaterialSourcing
        | SupplyChainStage::Manufacturing
        | SupplyChainStage::QualityControl
        | SupplyChainStage::Packaging => ProductStatus::Manufacturing,
        SupplyChainStage::Shipping | SupplyChainStage::Distribution => ProductStatus::InTransit,
        SupplyChainStage::Retail => ProductStatus::Delivered,
    }
}

/// Derives the status of a product from the stage of its last event.
pub fn stage_to_product_status(stage: &SupplyChainStage) -> (status: ProductStatus)
    ensures
        status == stage_to_status(*stage),
{
    match stage {
        SupplyChainStage::RawMaterialSourcing => ProductStatus::Manufacturing,
        SupplyChainStage::Manufacturing => ProductStatus::Manufacturing,
        SupplyChainStage::QualityControl => ProductStatus::Manufacturing,
        SupplyChainStage::Packaging => ProductStatus::Manufacturing,
        SupplyChainStage::Shipping => ProductStatus::InTransit,
        SupplyChainStage::Distribution => ProductStatus::InTransit,
        SupplyChainStage::Retail => ProductStatus::Delivered,
    }
}

} // verus!
