use icp_backend::roles::{EventStatus, ProductStatus, SupplyChainStage, UserRole};
use icp_backend::search::{chars_of, contains_chars, matches_query, text_contains};
use icp_backend::store::EntityStore;
use icp_backend::types::{
    Identity, Product, ProductRegistration, ProductSearchQuery, SupplyChainEventInput,
    UserRegistration,
};
use std::collections::HashMap;

fn maker() -> Identity {
    Identity { bytes: vec![1] }
}

fn store_with_maker(company: &str) -> EntityStore {
    let mut store = EntityStore::new();
    store
        .register_user(
            &maker(),
            UserRegistration {
                email: "m@example.org".to_string(),
                first_name: "M".to_string(),
                last_name: "K".to_string(),
                company: company.to_string(),
                role: UserRole::Manufacturer,
            },
            1,
        )
        .unwrap();
    store
}

fn goods(name: &str, category: &str) -> ProductRegistration {
    ProductRegistration {
        name: name.to_string(),
        category: category.to_string(),
        description: None,
        batch_number: Some("B-1".to_string()),
        production_date: 5,
        manufacturing_location: "Plant".to_string(),
        raw_materials: vec![],
        certifications: vec![],
        sustainability_score: None,
        estimated_value: Some(12.5f64.to_bits()),
    }
}

fn any() -> ProductSearchQuery {
    ProductSearchQuery {
        name: None,
        category: None,
        manufacturer: None,
        status: None,
        limit: None,
    }
}

fn names(found: &[Product]) -> Vec<String> {
    let mut names: Vec<String> = found.iter().map(|p| p.name.clone()).collect();
    names.sort();
    names
}

fn chars(text: &str) -> Vec<char> {
    text.chars().collect()
}

#[test]
fn characters_of_a_text() {
    assert_eq!(chars_of("héllo"), vec!['h', 'é', 'l', 'l', 'o']);
    assert_eq!(chars_of(""), Vec::<char>::new());
}

#[test]
fn substring_is_found_at_any_position() {
    assert!(contains_chars(&chars("espresso"), &chars("esp")));
    assert!(contains_chars(&chars("espresso"), &chars("press")));
    assert!(contains_chars(&chars("espresso"), &chars("sso")));
    assert!(contains_chars(&chars("espresso"), &chars("espresso")));
    assert!(!contains_chars(&chars("espresso"), &chars("espressos")));
    assert!(!contains_chars(&chars("espresso"), &chars("pesso")));
    assert!(!contains_chars(&chars("aab"), &chars("abb")));
    assert!(contains_chars(&chars("aaab"), &chars("aab")));
}

#[test]
fn empty_pattern_occurs_everywhere() {
    assert!(contains_chars(&chars("espresso"), &chars("")));
    assert!(contains_chars(&chars(""), &chars("")));
    assert!(!contains_chars(&chars(""), &chars("a")));
}

#[test]
fn text_matching_sets_letter_case_aside() {
    assert!(text_contains("Arabica Beans", "arabica"));
    assert!(text_contains("Arabica Beans", "BEANS"));
    assert!(text_contains("arabica beans", "A B"));
    assert!(text_contains("ÉCLAIR", "éclair"));
    assert!(!text_contains("Arabica Beans", "robusta"));
    assert!(!text_contains("Arabica", "Arabica Beans"));
    assert!(text_contains("Arabica", ""));
}

#[test]
fn search_without_filters_returns_all_up_to_fifty() {
    let mut store = store_with_maker("acme");
    for n in 0..60u64 {
        store
            .register_product(&maker(), goods(&format!("item {}", n), "Coffee"), 1000 + n)
            .unwrap();
    }
    let total = store.get_analytics().total_products;
    assert_eq!(total, 60);
    let found = store.search_products(any());
    assert_eq!(found.len(), 50);

    let mut all = any();
    all.limit = Some(1000);
    let everything = store.search_products(all);
    assert_eq!(everything.len(), 60);
    for k in 1..everything.len() {
        assert!(everything[k - 1].id < everything[k].id);
    }
    for k in 0..found.len() {
        assert_eq!(found[k].id, everything[k].id);
    }
}

#[test]
fn search_on_an_empty_registry_finds_nothing() {
    let store = EntityStore::new();
    assert!(store.search_products(any()).is_empty());
}

#[test]
fn search_stops_at_the_limit() {
    let mut store = store_with_maker("acme");
    for n in 0..7u64 {
        store
            .register_product(&maker(), goods(&format!("item {}", n), "Coffee"), 1000 + n)
            .unwrap();
    }
    for limit in [0u32, 1, 3, 7, 8] {
        let mut query = any();
        query.limit = Some(limit);
        let found = store.search_products(query);
        assert_eq!(found.len(), (limit as usize).min(7));
    }
}

#[test]
fn name_filter_is_a_substring_whatever_the_case() {
    let mut store = store_with_maker("acme");
    store
        .register_product(&maker(), goods("Arabica Beans", "Coffee"), 10)
        .unwrap();
    store
        .register_product(&maker(), goods("Robusta beans", "Coffee"), 11)
        .unwrap();
    store
        .register_product(&maker(), goods("Green Tea", "Tea"), 12)
        .unwrap();
    let mut query = any();
    query.name = Some("BEAN".to_string());
    assert_eq!(
        names(&store.search_products(query)),
        vec!["Arabica Beans", "Robusta beans"]
    );
    let mut query = any();
    query.name = Some("tea".to_string());
    assert_eq!(names(&store.search_products(query)), vec!["Green Tea"]);
    let mut query = any();
    query.name = Some("cocoa".to_string());
    assert!(store.search_products(query).is_empty());
    let mut query = any();
    query.name = Some("".to_string());
    assert_eq!(store.search_products(query).len(), 3);
}

#[test]
fn category_filter_is_exact() {
    let mut store = store_with_maker("acme");
    store
        .register_product(&maker(), goods("Arabica Beans", "Coffee"), 10)
        .unwrap();
    store
        .register_product(&maker(), goods("Green Tea", "Tea"), 12)
        .unwrap();
    let mut query = any();
    query.category = Some("Coffee".to_string());
    assert_eq!(names(&store.search_products(query)), vec!["Arabica Beans"]);
    for inexact in ["coffee", "Coff", "Coffee ", ""] {
        let mut query = any();
        query.category = Some(inexact.to_string());
        assert!(store.search_products(query).is_empty());
    }
}

#[test]
fn manufacturer_filter_is_a_substring_whatever_the_case() {
    let mut store = store_with_maker("Acme Roasters");
    store
        .register_product(&maker(), goods("Arabica Beans", "Coffee"), 10)
        .unwrap();
    let mut query = any();
    query.manufacturer = Some("ROAST".to_string());
    assert_eq!(store.search_products(query).len(), 1);
    let mut query = any();
    query.manufacturer = Some("globex".to_string());
    assert!(store.search_products(query).is_empty());
}

#[test]
fn status_filter_is_exact_and_filters_combine() {
    let mut store = store_with_maker("acme");
    let beans = store
        .register_product(&maker(), goods("Arabica Beans", "Coffee"), 10)
        .unwrap();
    store
        .register_product(&maker(), goods("Robusta Beans", "Coffee"), 11)
        .unwrap();
    store
        .register_product(&maker(), goods("Green Tea", "Tea"), 12)
        .unwrap();
    store
        .add_supply_chain_event(
            &maker(),
            SupplyChainEventInput {
                product_id: beans,
                stage: SupplyChainStage::Shipping,
                location: "Dock".to_string(),
                status: EventStatus::Pending,
                details: "".to_string(),
                certifications: vec![],
                estimated_arrival: None,
                metadata: HashMap::new(),
            },
            20,
        )
        .unwrap();
    let mut query = any();
    query.status = Some(ProductStatus::InTransit);
    assert_eq!(names(&store.search_products(query)), vec!["Arabica Beans"]);
    let mut query = any();
    query.status = Some(ProductStatus::Manufacturing);
    assert_eq!(
        names(&store.search_products(query)),
        vec!["Green Tea", "Robusta Beans"]
    );
    let mut query = any();
    query.status = Some(ProductStatus::Recalled);
    assert!(store.search_products(query).is_empty());

    let mut query = any();
    query.name = Some("beans".to_string());
    query.category = Some("Coffee".to_string());
    query.manufacturer = Some("ACME".to_string());
    query.status = Some(ProductStatus::Manufacturing);
    let found = store.search_products(query);
    assert_eq!(names(&found), vec!["Robusta Beans"]);
    assert!(matches_query(
        &found[0],
        &ProductSearchQuery {
            name: Some("ROBUSTA".to_string()),
            category: None,
            manufacturer: None,
            status: None,
            limit: Some(0),
        }
    ));
    assert!(!matches_query(
        &found[0],
        &ProductSearchQuery {
            name: None,
            category: Some("Tea".to_string()),
            manufacturer: None,
            status: None,
            limit: None,
        }
    ));
}
