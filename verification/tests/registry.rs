use icp_backend::errors::{ErrorKind, StoreError};
use icp_backend::roles::{
    EventStatus, PartnerType, ProductStatus, SupplyChainStage, UserRole,
};
use icp_backend::storage::get_default_permissions;
use icp_backend::store::EntityStore;
use icp_backend::types::{
    Identity, PartnerRegistration, ProductRegistration, SupplyChainEventInput,
    UserRegistration, DEFAULT_SUSTAINABILITY_SCORE,
};
use std::collections::HashMap;

fn identity(bytes: &[u8]) -> Identity {
    Identity {
        bytes: bytes.to_vec(),
    }
}

fn registration(company: &str, role: UserRole) -> UserRegistration {
    UserRegistration {
        email: format!("contact@{}.example", company),
        first_name: "Ada".to_string(),
        last_name: "Lovelace".to_string(),
        company: company.to_string(),
        role,
    }
}

fn coffee(location: &str) -> ProductRegistration {
    ProductRegistration {
        name: "Arabica Beans".to_string(),
        category: "Coffee".to_string(),
        description: Some("Single origin".to_string()),
        batch_number: None,
        production_date: 1_699_000_000,
        manufacturing_location: location.to_string(),
        raw_materials: vec!["beans".to_string()],
        certifications: vec!["Organic".to_string(), "Fair Trade".to_string()],
        sustainability_score: Some(85.5f64.to_bits()),
        estimated_value: None,
    }
}

fn event(product_id: &str, stage: SupplyChainStage, location: &str) -> SupplyChainEventInput {
    SupplyChainEventInput {
        product_id: product_id.to_string(),
        stage,
        location: location.to_string(),
        status: EventStatus::InProgress,
        details: "on its way".to_string(),
        certifications: vec![],
        estimated_arrival: Some(99),
        metadata: HashMap::new(),
    }
}

fn partner(company: &str) -> PartnerRegistration {
    PartnerRegistration {
        company_name: company.to_string(),
        partner_type: PartnerType::Supplier,
        contact_email: "sales@example.org".to_string(),
        contact_person: "Grace".to_string(),
        certifications: vec!["ISO 9001".to_string()],
    }
}

fn is_upper_hex(text: &str) -> bool {
    text.chars()
        .all(|c| c.is_ascii_digit() || ('A'..='F').contains(&c))
}

#[test]
fn anonymous_caller_cannot_register() {
    let mut store = EntityStore::new();
    let result = store.register_user(
        &Identity::anonymous(),
        registration("acme", UserRole::Manufacturer),
        1,
    );
    assert_eq!(result.unwrap_err(), StoreError::AnonymousCaller);
    assert_eq!(StoreError::AnonymousCaller.kind(), ErrorKind::Unauthorized);
    assert_eq!(store.get_analytics().total_users, 0);
    assert!(store.get_user(&Identity::anonymous()).is_err());
}

#[test]
fn anonymous_identity_is_the_single_byte_four() {
    assert_eq!(Identity::anonymous().bytes, vec![4u8]);
    assert!(Identity::anonymous().is_anonymous());
    assert!(!identity(&[4, 0]).is_anonymous());
    assert!(!identity(&[5]).is_anonymous());
    assert!(!identity(&[]).is_anonymous());
}

#[test]
fn registered_user_has_the_permissions_of_its_role() {
    let mut store = EntityStore::new();
    let alice = identity(&[1, 2, 3]);
    let user = store
        .register_user(&alice, registration("acme", UserRole::SupplyChainManager), 17)
        .unwrap();
    assert_eq!(user.id.bytes, vec![1, 2, 3]);
    assert_eq!(user.email, "contact@acme.example");
    assert_eq!(user.first_name, "Ada");
    assert_eq!(user.last_name, "Lovelace");
    assert_eq!(user.company, "acme");
    assert_eq!(user.role, UserRole::SupplyChainManager);
    assert_eq!(user.created_at, 17);
    assert!(!user.is_verified);
    assert_eq!(
        user.permissions,
        get_default_permissions(&UserRole::SupplyChainManager)
    );
    let stored = store.get_user(&alice).unwrap();
    assert_eq!(stored.company, "acme");
    assert_eq!(stored.created_at, 17);
    assert_eq!(stored.permissions, user.permissions);
}

#[test]
fn registering_twice_replaces_the_record() {
    let mut store = EntityStore::new();
    let alice = identity(&[1]);
    store
        .register_user(&alice, registration("acme", UserRole::Consumer), 1)
        .unwrap();
    store
        .register_user(&alice, registration("globex", UserRole::Admin), 2)
        .unwrap();
    let stored = store.get_user(&alice).unwrap();
    assert_eq!(stored.company, "globex");
    assert_eq!(stored.role, UserRole::Admin);
    assert_eq!(stored.created_at, 2);
    assert_eq!(store.get_analytics().total_users, 1);
}

#[test]
fn unknown_user_is_not_found() {
    let store = EntityStore::new();
    assert_eq!(
        store.get_user(&identity(&[9])).unwrap_err(),
        StoreError::UserNotFound
    );
    assert_eq!(
        store.get_user_by_principal(&identity(&[9])).unwrap_err(),
        StoreError::UserNotFound
    );
    assert_eq!(
        store.is_admin(&identity(&[9])).unwrap_err(),
        StoreError::UserNotFound
    );
}

#[test]
fn only_an_admin_sets_the_verification_flag() {
    let mut store = EntityStore::new();
    let admin = identity(&[1]);
    let maker = identity(&[2]);
    store
        .register_user(&admin, registration("root", UserRole::Admin), 1)
        .unwrap();
    store
        .register_user(&maker, registration("acme", UserRole::Manufacturer), 2)
        .unwrap();
    assert_eq!(store.is_admin(&admin), Ok(true));
    assert_eq!(store.is_admin(&maker), Ok(false));

    assert_eq!(
        store.update_user_verification(&maker, &admin, true),
        Err(StoreError::AdminRequired)
    );
    assert!(!store.get_user(&admin).unwrap().is_verified);

    assert_eq!(
        store.update_user_verification(&identity(&[3]), &maker, true),
        Err(StoreError::UserNotFound)
    );
    assert_eq!(
        store.update_user_verification(&admin, &identity(&[3]), true),
        Err(StoreError::UserNotFound)
    );

    assert_eq!(store.update_user_verification(&admin, &maker, true), Ok(()));
    let verified = store.get_user(&maker).unwrap();
    assert!(verified.is_verified);
    assert_eq!(verified.company, "acme");
    assert_eq!(verified.created_at, 2);
    assert_eq!(store.update_user_verification(&admin, &maker, false), Ok(()));
    assert!(!store.get_user(&maker).unwrap().is_verified);
    assert_eq!(store.get_analytics().total_users, 2);
}

#[test]
fn unregistered_caller_is_refused_every_write() {
    let mut store = EntityStore::new();
    let ghost = identity(&[7, 7]);
    assert_eq!(
        store.register_product(&ghost, coffee("Lima"), 1),
        Err(StoreError::UserNotFound)
    );
    assert_eq!(
        store.add_supply_chain_event(
            &ghost,
            event("CT-2024-000000", SupplyChainStage::Shipping, "Callao"),
            2
        ),
        Err(StoreError::UserNotFound)
    );
    assert_eq!(
        store.register_partner(&ghost, partner("globex"), 3),
        Err(StoreError::UserNotFound)
    );
    assert_eq!(
        store.update_user_verification(&ghost, &ghost, true),
        Err(StoreError::UserNotFound)
    );
    assert_eq!(StoreError::UserNotFound.kind(), ErrorKind::NotFound);
    let analytics = store.get_analytics();
    assert_eq!(analytics.total_products, 0);
    assert_eq!(analytics.total_partners, 0);
    assert_eq!(analytics.total_users, 0);
}

#[test]
fn consumer_cannot_register_a_product() {
    let mut store = EntityStore::new();
    let consumer = identity(&[5]);
    store
        .register_user(&consumer, registration("home", UserRole::Consumer), 1)
        .unwrap();
    let refused = store.register_product(&consumer, coffee("Lima"), 2);
    assert_eq!(refused, Err(StoreError::CannotRegisterProducts));
    assert_eq!(refused.unwrap_err().kind(), ErrorKind::Unauthorized);
    assert_eq!(store.get_analytics().total_products, 0);
    assert_eq!(
        store.add_supply_chain_event(
            &consumer,
            event("CT-2024-000000", SupplyChainStage::Retail, "Shop"),
            3
        ),
        Err(StoreError::CannotUpdateSupplyChain)
    );
    assert_eq!(
        store.register_partner(&consumer, partner("globex"), 4),
        Err(StoreError::CannotManagePartners)
    );
}

#[test]
fn manufacturer_registers_coffee_and_ships_it() {
    let mut store = EntityStore::new();
    let maker = identity(&[2, 0, 2, 4]);
    store
        .register_user(&maker, registration("acme", UserRole::Manufacturer), 10)
        .unwrap();
    let id = store.register_product(&maker, coffee("Lima"), 20).unwrap();
    assert_eq!(id.len(), 14);
    assert!(id.starts_with("CT-2024-"));
    assert!(is_upper_hex(&id[8..]));

    let ledger = store.get_supply_chain_events(id.clone()).unwrap();
    assert_eq!(ledger.len(), 1);
    assert_eq!(ledger[0].stage, SupplyChainStage::RawMaterialSourcing);
    assert_eq!(ledger[0].status, EventStatus::Completed);
    assert_eq!(ledger[0].product_id, id);
    assert_eq!(ledger[0].location, "Lima");
    assert_eq!(ledger[0].timestamp, 20);
    assert_eq!(ledger[0].actor, "acme");
    assert_eq!(ledger[0].actor_id.bytes, vec![2, 0, 2, 4]);
    assert_eq!(
        ledger[0].details,
        "Product registered and initial sourcing completed"
    );
    assert_eq!(ledger[0].certifications, vec!["Organic", "Fair Trade"]);
    assert_eq!(ledger[0].estimated_arrival, None);
    assert!(ledger[0].metadata.is_empty());
    assert_eq!(ledger[0].id, "EVT-F5CA38F7");

    let product = store.get_product(id.clone()).unwrap().product;
    assert_eq!(product.current_status, ProductStatus::Manufacturing);
    assert_eq!(product.current_location, "Lima");

    let event_id = store
        .add_supply_chain_event(&maker, event(&id, SupplyChainStage::Shipping, "Callao"), 30)
        .unwrap();
    assert!(event_id.starts_with("EVT-"));
    assert_eq!(event_id.len(), 12);
    let product = store.get_product(id.clone()).unwrap().product;
    assert_eq!(product.current_status, ProductStatus::InTransit);
    assert_eq!(product.current_location, "Callao");
    assert_eq!(product.updated_at, 30);
    assert_eq!(product.created_at, 20);
}

#[test]
fn registered_product_holds_what_was_stated() {
    let mut store = EntityStore::new();
    let maker = identity(&[1]);
    store
        .register_user(&maker, registration("acme", UserRole::Manufacturer), 10)
        .unwrap();
    let id = store.register_product(&maker, coffee("Lima"), 0).unwrap();
    assert_eq!(id, "CT-2024-08E3CF");
    let product = store.get_product(id).unwrap().product;
    assert_eq!(product.id, "CT-2024-08E3CF");
    assert_eq!(product.name, "Arabica Beans");
    assert_eq!(product.category, "Coffee");
    assert_eq!(product.description, Some("Single origin".to_string()));
    assert_eq!(product.manufacturer, "acme");
    assert_eq!(product.manufacturer_id.bytes, vec![1]);
    assert_eq!(product.batch_number, None);
    assert_eq!(product.production_date, 1_699_000_000);
    assert_eq!(product.raw_materials, vec!["beans"]);
    assert_eq!(product.certifications, vec!["Organic", "Fair Trade"]);
    assert_eq!(product.sustainability_score, Some(85.5f64.to_bits()));
    assert_eq!(product.estimated_value, None);
    assert_eq!(product.created_at, 0);
    assert_eq!(product.updated_at, 0);
}

#[test]
fn each_event_extends_the_ledger_by_one_in_call_order() {
    let mut store = EntityStore::new();
    let maker = identity(&[1]);
    store
        .register_user(&maker, registration("acme", UserRole::Manufacturer), 10)
        .unwrap();
    let id = store.register_product(&maker, coffee("Lima"), 100).unwrap();
    let stages = [
        SupplyChainStage::Retail,
        SupplyChainStage::Manufacturing,
        SupplyChainStage::Distribution,
        SupplyChainStage::QualityControl,
    ];
    let mut time = 90;
    for (n, stage) in stages.iter().enumerate() {
        let before = store.get_supply_chain_events(id.clone()).unwrap();
        assert_eq!(before.len(), n + 1);
        store
            .add_supply_chain_event(&maker, event(&id, *stage, &format!("stop {}", n)), time)
            .unwrap();
        let after = store.get_supply_chain_events(id.clone()).unwrap();
        assert_eq!(after.len(), n + 2);
        for k in 0..before.len() {
            assert_eq!(after[k].id, before[k].id);
            assert_eq!(after[k].timestamp, before[k].timestamp);
            assert_eq!(after[k].location, before[k].location);
        }
        assert_eq!(after[n + 1].stage, *stage);
        assert_eq!(after[n + 1].timestamp, time);
        time -= 10;
    }
    let ledger = store.get_supply_chain_events(id.clone()).unwrap();
    let times: Vec<u64> = ledger.iter().map(|e| e.timestamp).collect();
    assert_eq!(times, vec![100, 90, 80, 70, 60]);
    let product = store.get_product(id).unwrap().product;
    assert_eq!(product.current_status, ProductStatus::Manufacturing);
    assert_eq!(product.current_location, "stop 3");
    assert_eq!(product.updated_at, 60);
}

#[test]
fn status_follows_the_last_event_whatever_the_stage() {
    let cases = [
        (SupplyChainStage::RawMaterialSourcing, ProductStatus::Manufacturing),
        (SupplyChainStage::Manufacturing, ProductStatus::Manufacturing),
        (SupplyChainStage::QualityControl, ProductStatus::Manufacturing),
        (SupplyChainStage::Packaging, ProductStatus::Manufacturing),
        (SupplyChainStage::Shipping, ProductStatus::InTransit),
        (SupplyChainStage::Distribution, ProductStatus::InTransit),
        (SupplyChainStage::Retail, ProductStatus::Delivered),
    ];
    let mut store = EntityStore::new();
    let carrier = identity(&[3]);
    let maker = identity(&[1]);
    store
        .register_user(&maker, registration("acme", UserRole::Manufacturer), 1)
        .unwrap();
    store
        .register_user(&carrier, registration("haul", UserRole::LogisticsProvider), 2)
        .unwrap();
    let id = store.register_product(&maker, coffee("Lima"), 3).unwrap();
    for (n, (stage, status)) in cases.iter().enumerate() {
        let place = format!("place {}", n);
        store
            .add_supply_chain_event(&carrier, event(&id, *stage, &place), 10 + n as u64)
            .unwrap();
        let product = store.get_product(id.clone()).unwrap().product;
        assert_eq!(product.current_status, *status);
        assert_eq!(product.current_location, place);
        let ledger = store.get_supply_chain_events(id.clone()).unwrap();
        assert_eq!(ledger.last().unwrap().actor, "haul");
        assert_eq!(ledger.last().unwrap().actor_id.bytes, vec![3]);
    }
}

#[test]
fn recorded_event_holds_what_was_stated() {
    let mut store = EntityStore::new();
    let maker = identity(&[1]);
    store
        .register_user(&maker, registration("acme", UserRole::Manufacturer), 1)
        .unwrap();
    let id = store.register_product(&maker, coffee("Lima"), 2).unwrap();
    let mut metadata = HashMap::new();
    metadata.insert("truck".to_string(), "T-800".to_string());
    let input = SupplyChainEventInput {
        product_id: id.clone(),
        stage: SupplyChainStage::Packaging,
        location: "Cusco".to_string(),
        status: EventStatus::Failed,
        details: "box torn".to_string(),
        certifications: vec!["Checked".to_string()],
        estimated_arrival: Some(1234),
        metadata,
    };
    let event_id = store.add_supply_chain_event(&maker, input, 1).unwrap();
    assert_eq!(event_id, "EVT-6B86B273");
    let ledger = store.get_supply_chain_events(id.clone()).unwrap();
    let last = &ledger[1];
    assert_eq!(last.id, "EVT-6B86B273");
    assert_eq!(last.product_id, id);
    assert_eq!(last.stage, SupplyChainStage::Packaging);
    assert_eq!(last.location, "Cusco");
    assert_eq!(last.timestamp, 1);
    assert_eq!(last.actor, "acme");
    assert_eq!(last.status, EventStatus::Failed);
    assert_eq!(last.details, "box torn");
    assert_eq!(last.certifications, vec!["Checked"]);
    assert_eq!(last.estimated_arrival, Some(1234));
    assert_eq!(last.metadata.get("truck"), Some(&"T-800".to_string()));
    assert_eq!(last.metadata.len(), 1);
}

#[test]
fn event_for_unknown_product_is_not_found() {
    let mut store = EntityStore::new();
    let maker = identity(&[1]);
    store
        .register_user(&maker, registration("acme", UserRole::Manufacturer), 1)
        .unwrap();
    let id = store.register_product(&maker, coffee("Lima"), 2).unwrap();
    assert_eq!(
        store.add_supply_chain_event(
            &maker,
            event("CT-2024-NOPE", SupplyChainStage::Retail, "Shop"),
            3
        ),
        Err(StoreError::ProductNotFound)
    );
    assert_eq!(StoreError::ProductNotFound.kind(), ErrorKind::NotFound);
    assert_eq!(store.get_supply_chain_events(id.clone()).unwrap().len(), 1);
    assert_eq!(
        store.get_product(id).unwrap().product.current_status,
        ProductStatus::Manufacturing
    );
    assert_eq!(
        store
            .get_supply_chain_events("CT-2024-NOPE".to_string())
            .unwrap_err(),
        StoreError::ProductNotFound
    );
    assert_eq!(
        store.get_product("".to_string()).unwrap_err(),
        StoreError::ProductNotFound
    );
    assert_eq!(
        store
            .calculate_ethical_score(&"CT-2024-NOPE".to_string())
            .unwrap_err(),
        StoreError::ProductNotFound
    );
}

#[test]
fn other_products_are_untouched_by_an_event() {
    let mut store = EntityStore::new();
    let maker = identity(&[1]);
    store
        .register_user(&maker, registration("acme", UserRole::Manufacturer), 1)
        .unwrap();
    let first = store.register_product(&maker, coffee("Lima"), 2).unwrap();
    let second = store.register_product(&maker, coffee("Quito"), 3).unwrap();
    assert_ne!(first, second);
    store
        .add_supply_chain_event(&maker, event(&first, SupplyChainStage::Retail, "Shop"), 4)
        .unwrap();
    assert_eq!(store.get_supply_chain_events(first.clone()).unwrap().len(), 2);
    assert_eq!(store.get_supply_chain_events(second.clone()).unwrap().len(), 1);
    let untouched = store.get_product(second).unwrap().product;
    assert_eq!(untouched.current_status, ProductStatus::Manufacturing);
    assert_eq!(untouched.current_location, "Quito");
    assert_eq!(untouched.updated_at, 3);
}

#[test]
fn same_category_at_the_same_time_reuses_the_identifier() {
    let mut store = EntityStore::new();
    let maker = identity(&[1]);
    store
        .register_user(&maker, registration("acme", UserRole::Manufacturer), 1)
        .unwrap();
    let first = store.register_product(&maker, coffee("Lima"), 50).unwrap();
    store
        .add_supply_chain_event(&maker, event(&first, SupplyChainStage::Retail, "Shop"), 51)
        .unwrap();
    assert_eq!(store.get_supply_chain_events(first.clone()).unwrap().len(), 2);
    let second = store.register_product(&maker, coffee("Quito"), 50).unwrap();
    assert_eq!(first, second);
    assert_eq!(store.get_analytics().total_products, 1);
    let ledger = store.get_supply_chain_events(second.clone()).unwrap();
    assert_eq!(ledger.len(), 1);
    assert_eq!(ledger[0].location, "Quito");
    let product = store.get_product(second).unwrap().product;
    assert_eq!(product.current_location, "Quito");
    assert_eq!(product.current_status, ProductStatus::Manufacturing);
}

#[test]
fn partner_is_kept_under_the_callers_identity() {
    let mut store = EntityStore::new();
    let manager = identity(&[8, 8]);
    let maker = identity(&[1]);
    store
        .register_user(&manager, registration("hub", UserRole::SupplyChainManager), 1)
        .unwrap();
    store
        .register_user(&maker, registration("acme", UserRole::Manufacturer), 2)
        .unwrap();
    assert_eq!(
        store.register_partner(&maker, partner("globex"), 3),
        Err(StoreError::CannotManagePartners)
    );
    assert!(store.get_partners().is_empty());
    assert_eq!(store.register_partner(&manager, partner("globex"), 4), Ok(()));
    let partners = store.get_partners();
    assert_eq!(partners.len(), 1);
    assert_eq!(partners[0].id.bytes, vec![8, 8]);
    assert_eq!(partners[0].company_name, "globex");
    assert_eq!(partners[0].partner_type, PartnerType::Supplier);
    assert_eq!(partners[0].contact_email, "sales@example.org");
    assert_eq!(partners[0].contact_person, "Grace");
    assert_eq!(partners[0].certifications, vec!["ISO 9001"]);
    assert!(!partners[0].verified);
    assert_eq!(partners[0].created_at, 4);
    assert_eq!(partners[0].reputation_score, 0);

    assert_eq!(store.register_partner(&manager, partner("initech"), 5), Ok(()));
    let partners = store.get_partners();
    assert_eq!(partners.len(), 1);
    assert_eq!(partners[0].company_name, "initech");
    assert_eq!(partners[0].created_at, 5);
    assert_eq!(store.get_analytics().total_partners, 1);
}

#[test]
fn partners_come_in_ascending_order_of_identity_shorter_first() {
    let mut store = EntityStore::new();
    let callers: [&[u8]; 4] = [&[2, 0], &[9], &[1, 5], &[3]];
    for (n, bytes) in callers.iter().enumerate() {
        let who = identity(bytes);
        store
            .register_user(&who, registration("hub", UserRole::Admin), n as u64)
            .unwrap();
        store
            .register_partner(&who, partner(&format!("p{}", n)), n as u64)
            .unwrap();
    }
    let order: Vec<Vec<u8>> = store
        .get_partners()
        .iter()
        .map(|p| p.id.bytes.clone())
        .collect();
    assert_eq!(order, vec![vec![3], vec![9], vec![1, 5], vec![2, 0]]);
}

#[test]
fn empty_registry_counts_nothing() {
    let store = EntityStore::new();
    let analytics = store.get_analytics();
    assert_eq!(analytics.total_products, 0);
    assert_eq!(analytics.active_shipments, 0);
    assert_eq!(analytics.completed_deliveries, 0);
    assert_eq!(analytics.total_partners, 0);
    assert_eq!(analytics.total_users, 0);
    assert!(analytics.ethical_scores.is_empty());
    let status = store.get_canister_status(777);
    assert_eq!(status.version, "1.0.0");
    assert_eq!(status.total_products, 0);
    assert_eq!(status.total_users, 0);
    assert_eq!(status.total_events, 0);
    assert_eq!(status.uptime, 777);
}

#[test]
fn analytics_count_products_by_status() {
    let mut store = EntityStore::new();
    let maker = identity(&[1]);
    store
        .register_user(&maker, registration("acme", UserRole::SupplyChainManager), 1)
        .unwrap();
    store.register_partner(&maker, partner("globex"), 1).unwrap();
    let mut ids = Vec::new();
    for n in 0..5u64 {
        ids.push(store.register_product(&maker, coffee("Lima"), 100 + n).unwrap());
    }
    store
        .add_supply_chain_event(&maker, event(&ids[0], SupplyChainStage::Shipping, "a"), 200)
        .unwrap();
    store
        .add_supply_chain_event(&maker, event(&ids[1], SupplyChainStage::Distribution, "b"), 201)
        .unwrap();
    store
        .add_supply_chain_event(&maker, event(&ids[2], SupplyChainStage::Retail, "c"), 202)
        .unwrap();
    store
        .add_supply_chain_event(&maker, event(&ids[3], SupplyChainStage::Shipping, "d"), 203)
        .unwrap();
    store
        .add_supply_chain_event(&maker, event(&ids[3], SupplyChainStage::Packaging, "e"), 204)
        .unwrap();
    let analytics = store.get_analytics();
    assert_eq!(analytics.total_products, 5);
    assert_eq!(analytics.active_shipments, 2);
    assert_eq!(analytics.completed_deliveries, 1);
    assert_eq!(analytics.total_partners, 1);
    assert_eq!(analytics.total_users, 1);
    assert_eq!(analytics.ethical_scores.len(), 5);
    let status = store.get_canister_status(5);
    assert_eq!(status.version, "1.0.0");
    assert_eq!(status.total_products, 5);
    assert_eq!(status.total_users, 1);
    assert_eq!(status.total_events, 10);
    assert_eq!(status.uptime, 5);
}

#[test]
fn score_terms_count_certifications_and_certified_events() {
    let mut store = EntityStore::new();
    let maker = identity(&[1]);
    store
        .register_user(&maker, registration("acme", UserRole::Manufacturer), 1)
        .unwrap();
    let id = store.register_product(&maker, coffee("Lima"), 2).unwrap();
    let terms = store.calculate_ethical_score(&id).unwrap();
    assert_eq!(terms.base, 85.5f64.to_bits());
    assert_eq!(terms.certifications, 2);
    assert_eq!(terms.certified_events, 1);

    store
        .add_supply_chain_event(&maker, event(&id, SupplyChainStage::Shipping, "a"), 3)
        .unwrap();
    let terms = store.calculate_ethical_score(&id).unwrap();
    assert_eq!(terms.certified_events, 1);

    let mut certified = event(&id, SupplyChainStage::QualityControl, "lab");
    certified.certifications = vec!["Lab tested".to_string()];
    store.add_supply_chain_event(&maker, certified, 4).unwrap();
    let terms = store.calculate_ethical_score(&id).unwrap();
    assert_eq!(terms.base, 85.5f64.to_bits());
    assert_eq!(terms.certifications, 2);
    assert_eq!(terms.certified_events, 2);

    let history = store.get_product(id.clone()).unwrap();
    assert_eq!(history.ethical_score, terms);
    assert_eq!(history.supply_chain_events.len(), 3);
    assert_eq!(history.product.id, id);
    assert_eq!(store.get_analytics().ethical_scores, vec![terms]);
}

#[test]
fn product_without_score_starts_from_fifty() {
    assert_eq!(f64::from_bits(DEFAULT_SUSTAINABILITY_SCORE), 50.0);
    let mut store = EntityStore::new();
    let maker = identity(&[1]);
    store
        .register_user(&maker, registration("acme", UserRole::Manufacturer), 1)
        .unwrap();
    let mut plain = coffee("Lima");
    plain.sustainability_score = None;
    plain.certifications = vec![];
    let id = store.register_product(&maker, plain, 2).unwrap();
    let terms = store.calculate_ethical_score(&id).unwrap();
    assert_eq!(f64::from_bits(terms.base), 50.0);
    assert_eq!(terms.certifications, 0);
    assert_eq!(terms.certified_events, 0);
}
