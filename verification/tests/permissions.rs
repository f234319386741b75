use icp_backend::roles::{
    stage_to_product_status, ProductStatus, SupplyChainStage, UserPermissions, UserRole,
};
use icp_backend::storage::get_default_permissions;

fn flags(p: UserPermissions) -> [bool; 5] {
    [
        p.can_register_products,
        p.can_update_supply_chain,
        p.can_manage_partners,
        p.can_view_analytics,
        p.can_verify_users,
    ]
}

#[test]
fn manufacturer_permissions() {
    assert_eq!(
        flags(get_default_permissions(&UserRole::Manufacturer)),
        [true, true, false, true, false]
    );
}

#[test]
fn logistics_provider_permissions() {
    assert_eq!(
        flags(get_default_permissions(&UserRole::LogisticsProvider)),
        [false, true, false, true, false]
    );
}

#[test]
fn retailer_permissions() {
    assert_eq!(
        flags(get_default_permissions(&UserRole::Retailer)),
        [false, true, false, true, false]
    );
}

#[test]
fn quality_assurance_permissions() {
    assert_eq!(
        flags(get_default_permissions(&UserRole::QualityAssurance)),
        [false, true, false, true, false]
    );
}

#[test]
fn supply_chain_manager_permissions() {
    assert_eq!(
        flags(get_default_permissions(&UserRole::SupplyChainManager)),
        [true, true, true, true, false]
    );
}

#[test]
fn admin_permissions() {
    assert_eq!(
        flags(get_default_permissions(&UserRole::Admin)),
        [true, true, true, true, true]
    );
}

#[test]
fn consumer_permissions() {
    assert_eq!(
        flags(get_default_permissions(&UserRole::Consumer)),
        [false, false, false, false, false]
    );
}

#[test]
fn every_stage_has_its_status() {
    assert_eq!(
        stage_to_product_status(&SupplyChainStage::RawMaterialSourcing),
        ProductStatus::Manufacturing
    );
    assert_eq!(
        stage_to_product_status(&SupplyChainStage::Manufacturing),
        ProductStatus::Manufacturing
    );
    assert_eq!(
        stage_to_product_status(&SupplyChainStage::QualityControl),
        ProductStatus::Manufacturing
    );
    assert_eq!(
        stage_to_product_status(&SupplyChainStage::Packaging),
        ProductStatus::Manufacturing
    );
    assert_eq!(
        stage_to_product_status(&SupplyChainStage::Shipping),
        ProductStatus::InTransit
    );
    assert_eq!(
        stage_to_product_status(&SupplyChainStage::Distribution),
        ProductStatus::InTransit
    );
    assert_eq!(
        stage_to_product_status(&SupplyChainStage::Retail),
        ProductStatus::Delivered
    );
}

#[test]
fn no_stage_leads_to_recalled() {
    let stages = [
        SupplyChainStage::RawMaterialSourcing,
        SupplyChainStage::Manufacturing,
        SupplyChainStage::QualityControl,
        SupplyChainStage::Packaging,
        SupplyChainStage::Shipping,
        SupplyChainStage::Distribution,
        SupplyChainStage::Retail,
    ];
    for stage in stages.iter() {
        assert_ne!(stage_to_product_status(stage), ProductStatus::Recalled);
    }
}
