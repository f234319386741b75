//! The registry itself: users, products with their ledgers, and partners,
//! behind the operations that read and change them. Every write operation
//! first resolves the caller to a registered user and checks the capability
//! that the operation needs; a refused operation changes nothing.

use vstd::prelude::*;
use vstd::string::*;
use std::collections::HashMap;
use crate::errors::StoreError;
use crate::laws::{
    lemma_ledger_fits,
    lemma_moved_product_fits,
    lemma_restored_wf,
    lemma_store_partner_wf,
    lemma_store_product_wf,
    lemma_store_user_wf,
};
use crate::model::{
    add_event_refusal,
    after_add_event,
    after_register_partner,
    after_register_product,
    after_register_user,
    after_update_user_verification,
    certified_events,
    count_status,
    initial_event,
    is_score_of,
    ledger_fits,
    new_event,
    new_user,
    register_partner_refusal,
    register_product_refusal,
    register_user_refusal,
    restorable,
    restored,
    total_events,
    verification_refusal,
    with_partners,
    with_products,
    with_users,
    StoreState,
};
use crate::order::KeyOrder;
use crate::roles::{
    stage_to_product_status,
    EventStatus,
    ProductStatus,
    SupplyChainStage,
    UserPermissions,
    UserRole,
};
use crate::search::{lemma_matching_prefix, matches_query, matching, query_limit, search_results};
use crate::storage::get_default_permissions;
use crate::table::{lemma_upsert_map_values, Table};
use crate::types::{
    clone_strings,
    AnalyticsData,
    CanisterStatus,
    EthicalScoreTerms,
    Identity,
    Partner,
    PartnerRegistration,
    Product,
    ProductRegistration,
    ProductSearchQuery,
    ProductWithHistory,
    SupplyChainEvent,
    SupplyChainEventInput,
    SupplyChainEventList,
    User,
    UserRegistration,
    DEFAULT_SUSTAINABILITY_SCORE,
};
use crate::utils::{event_id_for, generate_event_id, generate_product_id, product_id_for};

verus! {

/// A product together with its ledger.
struct ProductRecord {
    product: Product,
    events: SupplyChainEventList,
}

/// The registry. It starts empty and is changed only by its operations, so
/// it is in a valid state at all times.
pub struct EntityStore {
    users: Table<User>,
    products: Table<ProductRecord>,
    partners: Table<Partner>,
}

impl View for EntityStore {
    type V = StoreState;

    closed spec fn view(&self) -> StoreState {
        state_of(self.users.values(), self.products.values(), self.partners.values())
    }
}

/// The state that the three tables hold.
spec fn state_of(users: Seq<User>, products: Seq<ProductRecord>, partners: Seq<Partner>) -> StoreState {
    StoreState {
        users: users.map_values(|u: User| u@),
        products: products.map_values(|r: ProductRecord| r.product@),
        ledgers: products.map_values(|r: ProductRecord| r.events@),
        partners: partners.map_values(|p: Partner| p@),
    }
}

/// Three tables that make a registry: each in the order of its kind of key,
/// each value under the key that it carries, and the whole a valid state.
spec fn tables_valid(
    users: Table<User>,
    products: Table<ProductRecord>,
    partners: Table<Partner>,
) -> bool {
    let state = state_of(users.values(), products.values(), partners.values());
    &&& users.order() == KeyOrder::LengthFirst
    &&& products.order() == KeyOrder::Lexicographic
    &&& partners.order() == KeyOrder::LengthFirst
    &&& users.keys() == state.user_keys()
    &&& products.keys() == state.product_keys()
    &&& partners.keys() == state.partner_keys()
    &&& state.wf()
}

impl EntityStore {
    #[verifier::type_invariant]
    spec fn valid(&self) -> bool {
        tables_valid(self.users, self.products, self.partners)
    }

    /// A registry that holds nothing.
    pub fn new() -> (store: EntityStore)
        ensures
            store@ == StoreState::empty(),
            store@.wf(),
    {
        let users: Table<User> = Table::new(KeyOrder::LengthFirst);
        let products: Table<ProductRecord> = Table::new(KeyOrder::Lexicographic);
        let partners: Table<Partner> = Table::new(KeyOrder::LengthFirst);
        proof {
            let state = state_of(users.values(), products.values(), partners.values());
            assert(state.users =~= Seq::empty());
            assert(state.products =~= Seq::empty());
            assert(state.ledgers =~= Seq::empty());
            assert(state.partners =~= Seq::empty());
            assert(state.user_keys() =~= Seq::empty());
            assert(state.product_keys() =~= Seq::empty());
            assert(state.partner_keys() =~= Seq::empty());
            assert(state =~= StoreState::empty());
        }
        EntityStore { users, products, partners }
    }

    /// Shows that this registry is in a valid state, as every registry is.
    /// It does nothing when it runs.
    pub fn validity(&self)
        ensures
            self@.wf(),
    {
        proof {
            use_type_invariant(self);
        }
    }

    /// Rebuilds a registry from records that were kept elsewhere: the users
    /// and partners, and the products with the ledger of each at the position
    /// of its product. Of two records under one key the later one stays.
    /// Returns nothing unless there are as many ledgers as products and every
    /// ledger fits its product.
    pub fn restore(
        users: &Vec<User>,
        products: &Vec<Product>,
        ledgers: &Vec<SupplyChainEventList>,
        partners: &Vec<Partner>,
    ) -> (rebuilt: Option<EntityStore>)
        ensures
            match rebuilt {
                Some(store) => {
                    &&& restorable(products.deep_view(), ledgers.deep_view())
                    &&& store@ == restored(
                        users.deep_view(),
                        products.deep_view(),
                        ledgers.deep_view(),
                        partners.deep_view(),
                    )
                    &&& store@.wf()
                },
                None => !restorable(products.deep_view(), ledgers.deep_view()),
            },
    {
        if products.len() != ledgers.len() {
            return None;
        }
        let mut store: EntityStore = EntityStore::new();
        let mut i: usize = 0;
        assert(users.deep_view().take(0) =~= Seq::empty());
        while i < users.len()
            invariant
                i <= users.len(),
                store@ == with_users(StoreState::empty(), users.deep_view().take(i as int)),
            decreases users.len() - i,
        {
            proof {
                let later = users.deep_view().take(i + 1);
                assert(later.drop_last() =~= users.deep_view().take(i as int));
                assert(later.last() == users@[i as int]@);
            }
            store.put_user(users[i].clone());
            i = i + 1;
        }
        assert(users.deep_view().take(users.len() as int) =~= users.deep_view());
        let ghost with_all_users = store@;
        let mut i: usize = 0;
        assert(products.deep_view().take(0) =~= Seq::empty());
        assert(ledgers.deep_view().take(0) =~= Seq::empty());
        while i < products.len()
            invariant
                i <= products.len(),
                products.len() == ledgers.len(),
                store@ == with_products(
                    with_all_users,
                    products.deep_view().take(i as int),
                    ledgers.deep_view().take(i as int),
                ),
                forall|j: int|
                    0 <= j < i ==> ledger_fits(
                        #[trigger] products.deep_view()[j],
                        ledgers.deep_view()[j],
                    ),
            decreases products.len() - i,
        {
            if !ledger_fits_product(&products[i], &ledgers[i]) {
                assert(!ledger_fits(products.deep_view()[i as int], ledgers.deep_view()[i as int]));
                return None;
            }
            proof {
                let later = products.deep_view().take(i + 1);
                assert(later.drop_last() =~= products.deep_view().take(i as int));
                assert(later.last() == products@[i as int]@);
                let later_ledgers = ledgers.deep_view().take(i + 1);
                assert(later_ledgers.drop_last() =~= ledgers.deep_view().take(i as int));
                assert(later_ledgers.last() == ledgers@[i as int]@);
            }
            store.put_product(products[i].clone(), ledgers[i].clone());
            i = i + 1;
        }
        assert(products.deep_view().take(products.len() as int) =~= products.deep_view());
        assert(ledgers.deep_view().take(products.len() as int) =~= ledgers.deep_view());
        let ghost with_all_products = store@;
        let mut i: usize = 0;
        assert(partners.deep_view().take(0) =~= Seq::empty());
        while i < partners.len()
            invariant
                i <= partners.len(),
                store@ == with_partners(with_all_products, partners.deep_view().take(i as int)),
            decreases partners.len() - i,
        {
            proof {
                let later = partners.deep_view().take(i + 1);
                assert(later.drop_last() =~= partners.deep_view().take(i as int));
                assert(later.last() == partners@[i as int]@);
            }
            store.put_partner(partners[i].clone());
            i = i + 1;
        }
        assert(partners.deep_view().take(partners.len() as int) =~= partners.deep_view());
        proof {
            lemma_restored_wf(
                users.deep_view(),
                products.deep_view(),
                ledgers.deep_view(),
                partners.deep_view(),
            );
        }
        Some(store)
    }

    /// Stores `user` under its identity.
    fn put_user(&mut self, user: User)
        ensures
            final(self)@ == old(self)@.store_user(user@),
            final(self)@.wf(),
    {
        proof {
            use_type_invariant(&*self);
        }
        let ghost before = self@;
        let mut taken: EntityStore = EntityStore::new();
        std::mem::swap(&mut taken, self);
        let EntityStore { mut users, products, partners } = taken;
        let ghost old_values = users.values();
        let ghost old_keys = users.keys();
        users.insert(user.id.bytes.clone(), user);
        proof {
            lemma_store_user_wf(before, user@);
            lemma_upsert_map_values(
                KeyOrder::LengthFirst,
                old_keys,
                old_values,
                user@.id,
                user,
                |u: User| u@,
            );
            assert(state_of(users.values(), products.values(), partners.values())
                == before.store_user(user@));
        }
        *self = EntityStore { users, products, partners };
    }

    /// Stores `product` with its ledger under the product's identifier.
    fn put_product(&mut self, product: Product, events: SupplyChainEventList)
        requires
            ledger_fits(product@, events@),
        ensures
            final(self)@ == old(self)@.store_product(product@, events@),
            final(self)@.wf(),
    {
        proof {
            use_type_invariant(&*self);
        }
        let ghost before = self@;
        let key: Vec<u8> = product.id.as_str().as_bytes_vec();
        let record = ProductRecord { product, events };
        let mut taken: EntityStore = EntityStore::new();
        std::mem::swap(&mut taken, self);
        let EntityStore { users, mut products, partners } = taken;
        let ghost old_values = products.values();
        let ghost old_keys = products.keys();
        products.insert(key, record);
        proof {
            lemma_store_product_wf(before, product@, events@);
            lemma_upsert_map_values(
                KeyOrder::Lexicographic,
                old_keys,
                old_values,
                key@,
                record,
                |r: ProductRecord| r.product@,
            );
            lemma_upsert_map_values(
                KeyOrder::Lexicographic,
                old_keys,
                old_values,
                key@,
                record,
                |r: ProductRecord| r.events@,
            );
            assert(state_of(users.values(), products.values(), partners.values())
                == before.store_product(product@, events@));
        }
        *self = EntityStore { users, products, partners };
    }

    /// Stores `partner` under its identity.
    fn put_partner(&mut self, partner: Partner)
        ensures
            final(self)@ == old(self)@.store_partner(partner@),
            final(self)@.wf(),
    {
        proof {
            use_type_invariant(&*self);
        }
        let ghost before = self@;
        let mut taken: EntityStore = EntityStore::new();
        std::mem::swap(&mut taken, self);
        let EntityStore { users, products, mut partners } = taken;
        let ghost old_values = partners.values();
        let ghost old_keys = partners.keys();
        partners.insert(partner.id.bytes.clone(), partner);
        proof {
            lemma_store_partner_wf(before, partner@);
            lemma_upsert_map_values(
                KeyOrder::LengthFirst,
                old_keys,
                old_values,
                partner@.id,
                partner,
                |p: Partner| p@,
            );
            assert(state_of(users.values(), products.values(), partners.values())
                == before.store_partner(partner@));
        }
        *self = EntityStore { users, products, partners };
    }

    /// Registers `caller` as a user at time `now`, or replaces the record that
    /// it registered before. An unauthenticated caller is refused.
    pub fn register_user(&mut self, caller: &Identity, user_data: UserRegistration, now: u64) -> (result:
        Result<User, StoreError>)
        ensures
            final(self)@ == after_register_user(old(self)@, caller@, user_data@, now),
            final(self)@.wf(),
            match result {
                Ok(user) => register_user_refusal(caller@) is None && user@ == new_user(
                    caller@,
                    user_data@,
                    now,
                ),
                Err(error) => register_user_refusal(caller@) == Some(error),
            },
    {
        proof {
            use_type_invariant(&*self);
        }
        if caller.is_anonymous() {
            return Err(StoreError::AnonymousCaller);
        }
        let permissions: UserPermissions = get_default_permissions(&user_data.role);
        let user = User {
            id: caller.clone(),
            email: user_data.email,
            first_name: user_data.first_name,
            last_name: user_data.last_name,
            company: user_data.company,
            role: user_data.role,
            created_at: now,
            is_verified: false,
            permissions,
        };
        let copy: User = user.clone();
        self.put_user(user);
        Ok(copy)
    }

    /// Looks up the user registered under `principal`.
    pub fn get_user_by_principal(&self, principal: &Identity) -> (result: Result<&User, StoreError>)
        ensures
            match result {
                Ok(user) => self@.has_user(principal@) && user@ == self@.user(principal@),
                Err(error) => error == StoreError::UserNotFound && !self@.has_user(principal@),
            },
    {
        proof {
            use_type_invariant(self);
        }
        match self.users.find(principal.bytes.as_slice()) {
            Some(at) => Ok(self.users.value_at(at)),
            None => Err(StoreError::UserNotFound),
        }
    }

    /// Whether the user registered under `principal` has the role of an
    /// administrator.
    pub fn is_admin(&self, principal: &Identity) -> (result: Result<bool, StoreError>)
        ensures
            match result {
                Ok(admin) => self@.has_user(principal@) && admin == (self@.user(principal@).role
                    == UserRole::Admin),
                Err(error) => error == StoreError::UserNotFound && !self@.has_user(principal@),
            },
    {
        match self.get_user_by_principal(principal) {
            Ok(user) => Ok(user.role == UserRole::Admin),
            Err(error) => Err(error),
        }
    }

    /// The record of the user registered under `caller`.
    pub fn get_user(&self, caller: &Identity) -> (result: Result<User, StoreError>)
        ensures
            match result {
                Ok(user) => self@.has_user(caller@) && user@ == self@.user(caller@),
                Err(error) => error == StoreError::UserNotFound && !self@.has_user(caller@),
            },
    {
        match self.get_user_by_principal(caller) {
            Ok(user) => Ok(user.clone()),
            Err(error) => Err(error),
        }
    }

    /// Sets the verification flag of the user `user_id`. Only a registered
    /// administrator may do so.
    pub fn update_user_verification(
        &mut self,
        caller: &Identity,
        user_id: &Identity,
        verified: bool,
    ) -> (result: Result<(), StoreError>)
        ensures
            final(self)@ == after_update_user_verification(
                old(self)@,
                caller@,
                user_id@,
                verified,
            ),
            final(self)@.wf(),
            match result {
                Ok(_) => verification_refusal(old(self)@, caller@, user_id@) is None,
                Err(error) => verification_refusal(old(self)@, caller@, user_id@) == Some(error),
            },
    {
        proof {
            use_type_invariant(&*self);
        }
        match self.is_admin(caller) {
            Err(error) => {
                return Err(error);
            },
            Ok(admin) => {
                if !admin {
                    return Err(StoreError::AdminRequired);
                }
            },
        }
        let mut user: User = match self.get_user_by_principal(user_id) {
            Ok(user) => user.clone(),
            Err(error) => {
                return Err(error);
            },
        };
        user.is_verified = verified;
        self.put_user(user);
        Ok(())
    }

    /// Registers a product for `caller` at time `now` and starts its ledger
    /// with one completed sourcing event. Returns the identifier of the
    /// product, which is derived from its category and `now`.
    pub fn register_product(
        &mut self,
        caller: &Identity,
        product_data: ProductRegistration,
        now: u64,
    ) -> (result: Result<String, StoreError>)
        ensures
            final(self)@ == after_register_product(old(self)@, caller@, product_data@, now),
            final(self)@.wf(),
            match result {
                Ok(id) => register_product_refusal(old(self)@, caller@) is None && id@
                    == product_id_for(product_data@.category, now),
                Err(error) => register_product_refusal(old(self)@, caller@) == Some(error),
            },
    {
        proof {
            use_type_invariant(&*self);
        }
        let ghost before = self@;
        let ghost data = product_data@;
        let company: String = match self.get_user_by_principal(caller) {
            Ok(user) => {
                if !user.permissions.can_register_products {
                    return Err(StoreError::CannotRegisterProducts);
                }
                user.company.clone()
            },
            Err(error) => {
                return Err(error);
            },
        };
        let product_id: String = generate_product_id(product_data.category.as_str(), now);
        let event_certifications: Vec<String> = clone_strings(&product_data.certifications);
        let product = Product {
            id: product_id.clone(),
            name: product_data.name,
            category: product_data.category,
            description: product_data.description,
            manufacturer: company.clone(),
            manufacturer_id: caller.clone(),
            batch_number: product_data.batch_number,
            production_date: product_data.production_date,
            raw_materials: product_data.raw_materials,
            certifications: product_data.certifications,
            sustainability_score: product_data.sustainability_score,
            estimated_value: product_data.estimated_value,
            current_status: ProductStatus::Manufacturing,
            current_location: product_data.manufacturing_location.clone(),
            created_at: now,
            updated_at: now,
        };
        let first = SupplyChainEvent {
            id: generate_event_id(now),
            product_id: product_id.clone(),
            stage: SupplyChainStage::RawMaterialSourcing,
            location: product_data.manufacturing_location,
            timestamp: now,
            actor: company,
            actor_id: caller.clone(),
            status: EventStatus::Completed,
            details: String::from_str("Product registered and initial sourcing completed"),
            certifications: event_certifications,
            estimated_arrival: None,
            metadata: HashMap::new(),
        };
        let mut events: Vec<SupplyChainEvent> = Vec::new();
        events.push(first);
        let ledger = SupplyChainEventList(events);
        proof {
            assert(ledger@ =~= seq![initial_event(before.user(caller@), data, now)]);
            assert(ledger_fits(product@, ledger@));
        }
        self.put_product(product, ledger);
        Ok(product_id)
    }

    /// Records an event for a product at time `now`: appends it to the
    /// product's ledger and gives the product the status and location that
    /// follow from it. Returns the identifier of the event, which is derived
    /// from `now`.
    pub fn add_supply_chain_event(
        &mut self,
        caller: &Identity,
        event_data: SupplyChainEventInput,
        now: u64,
    ) -> (result: Result<String, StoreError>)
        ensures
            final(self)@ == after_add_event(old(self)@, caller@, event_data@, now),
            final(self)@.wf(),
            match result {
                Ok(id) => add_event_refusal(old(self)@, caller@, event_data@) is None && id@
                    == event_id_for(now),
                Err(error) => add_event_refusal(old(self)@, caller@, event_data@) == Some(error),
            },
    {
        proof {
            use_type_invariant(&*self);
        }
        let ghost before = self@;
        let ghost input = event_data@;
        let company: String = match self.get_user_by_principal(caller) {
            Ok(user) => {
                if !user.permissions.can_update_supply_chain {
                    return Err(StoreError::CannotUpdateSupplyChain);
                }
                user.company.clone()
            },
            Err(error) => {
                return Err(error);
            },
        };
        let at: usize = match self.find_product(event_data.product_id.as_str()) {
            Some(at) => at,
            None => {
                return Err(StoreError::ProductNotFound);
            },
        };
        let stored: &ProductRecord = self.products.value_at(at);
        let mut product: Product = stored.product.clone();
        let SupplyChainEventList(mut events) = stored.events.clone();
        let event_id: String = generate_event_id(now);
        product.current_status = stage_to_product_status(&event_data.stage);
        product.current_location = event_data.location.clone();
        product.updated_at = now;
        let event = SupplyChainEvent {
            id: event_id.clone(),
            product_id: event_data.product_id,
            stage: event_data.stage,
            location: event_data.location,
            timestamp: now,
            actor: company,
            actor_id: caller.clone(),
            status: event_data.status,
            details: event_data.details,
            certifications: event_data.certifications,
            estimated_arrival: event_data.estimated_arrival,
            metadata: event_data.metadata,
        };
        events.push(event);
        let ledger = SupplyChainEventList(events);
        proof {
            lemma_ledger_fits(before, input.product_id);
            lemma_moved_product_fits(
                before.product(input.product_id),
                before.ledger(input.product_id),
                new_event(before.user(caller@), input, now),
                now,
            );
            assert(ledger@ =~= before.ledger(input.product_id).push(
                new_event(before.user(caller@), input, now),
            ));
        }
        self.put_product(product, ledger);
        Ok(event_id)
    }

    /// Registers a partner under the identity of `caller` at time `now`, or
    /// replaces the partner registered under it.
    pub fn register_partner(
        &mut self,
        caller: &Identity,
        partner_data: PartnerRegistration,
        now: u64,
    ) -> (result: Result<(), StoreError>)
        ensures
            final(self)@ == after_register_partner(old(self)@, caller@, partner_data@, now),
            final(self)@.wf(),
            match result {
                Ok(_) => register_partner_refusal(old(self)@, caller@) is None,
                Err(error) => register_partner_refusal(old(self)@, caller@) == Some(error),
            },
    {
        proof {
            use_type_invariant(&*self);
        }
        match self.get_user_by_principal(caller) {
            Ok(user) => {
                if !user.permissions.can_manage_partners {
                    return Err(StoreError::CannotManagePartners);
                }
            },
            Err(error) => {
                return Err(error);
            },
        }
        let partner = Partner {
            id: caller.clone(),
            company_name: partner_data.company_name,
            partner_type: partner_data.partner_type,
            contact_email: partner_data.contact_email,
            contact_person: partner_data.contact_person,
            certifications: partner_data.certifications,
            verified: false,
            created_at: now,
            reputation_score: 0,
        };
        self.put_partner(partner);
        Ok(())
    }

    /// The position of the product `product_id`, if it is registered.
    fn find_product(&self, product_id: &str) -> (found: Option<usize>)
        ensures
            match found {
                Some(at) => self@.has_product(product_id@) && at == self@.product_index(
                    product_id@,
                ) && at < self.products.values().len(),
                None => !self@.has_product(product_id@),
            },
    {
        proof {
            use_type_invariant(self);
        }
        self.products.find(product_id.as_bytes())
    }

    /// The terms from which the ethical score of the product `product_id` is
    /// computed.
    pub fn calculate_ethical_score(&self, product_id: &String) -> (result: Result<
        EthicalScoreTerms,
        StoreError,
    >)
        ensures
            match result {
                Ok(terms) => self@.has_product(product_id@) && is_score_of(
                    terms,
                    self@.product(product_id@),
                    self@.ledger(product_id@),
                ),
                Err(error) => error == StoreError::ProductNotFound && !self@.has_product(
                    product_id@,
                ),
            },
    {
        match self.find_product(product_id.as_str()) {
            Some(at) => Ok(score_terms(self.products.value_at(at))),
            None => Err(StoreError::ProductNotFound),
        }
    }

    /// The product `product_id` with its whole ledger and the terms of its
    /// ethical score.
    pub fn get_product(&self, product_id: String) -> (result: Result<ProductWithHistory, StoreError>)
        ensures
            match result {
                Ok(history) => {
                    &&& self@.has_product(product_id@)
                    &&& history.product@ == self@.product(product_id@)
                    &&& history.supply_chain_events.deep_view() == self@.ledger(product_id@)
                    &&& is_score_of(
                        history.ethical_score,
                        self@.product(product_id@),
                        self@.ledger(product_id@),
                    )
                },
                Err(error) => error == StoreError::ProductNotFound && !self@.has_product(
                    product_id@,
                ),
            },
    {
        match self.find_product(product_id.as_str()) {
            Some(at) => {
                let record: &ProductRecord = self.products.value_at(at);
                let SupplyChainEventList(events) = record.events.clone();
                assert(events.deep_view() =~= record.events@);
                Ok(
                    ProductWithHistory {
                        product: record.product.clone(),
                        supply_chain_events: events,
                        ethical_score: score_terms(record),
                    },
                )
            },
            None => Err(StoreError::ProductNotFound),
        }
    }

    /// The ledger of the product `product_id`: its events in the order in
    /// which they were recorded.
    pub fn get_supply_chain_events(&self, product_id: String) -> (result: Result<
        Vec<SupplyChainEvent>,
        StoreError,
    >)
        ensures
            match result {
                Ok(events) => self@.has_product(product_id@) && events.deep_view() == self@.ledger(
                    product_id@,
                ),
                Err(error) => error == StoreError::ProductNotFound && !self@.has_product(
                    product_id@,
                ),
            },
    {
        match self.find_product(product_id.as_str()) {
            Some(at) => {
                let record: &ProductRecord = self.products.value_at(at);
                let SupplyChainEventList(events) = record.events.clone();
                assert(events.deep_view() =~= record.events@);
                Ok(events)
            },
            None => Err(StoreError::ProductNotFound),
        }
    }

    /// All partners, in ascending order of their identities.
    pub fn get_partners(&self) -> (partners: Vec<Partner>)
        ensures
            partners.deep_view() == self@.partners,
    {
        let mut partners: Vec<Partner> = Vec::new();
        let count: usize = self.partners.len();
        let mut i: usize = 0;
        while i < count
            invariant
                i <= count,
                count == self.partners.values().len(),
                partners@.len() == i,
                forall|j: int| 0 <= j < i ==> partners@[j]@ == self.partners.values()[j]@,
            decreases count - i,
        {
            partners.push(self.partners.value_at(i).clone());
            i = i + 1;
        }
        assert(partners.deep_view() =~= self@.partners);
        partners
    }

    /// The products that pass every filter of `query`, in ascending order of
    /// their identifiers, and no more of them than the query's limit.
    pub fn search_products(&self, query: ProductSearchQuery) -> (found: Vec<Product>)
        ensures
            found.deep_view() == search_results(self@.products, query@),
            found@.len() <= query_limit(query@),
    {
        let limit: usize = match query.limit {
            Some(limit) => limit as usize,
            None => 50,
        };
        let mut found: Vec<Product> = Vec::new();
        let count: usize = self.products.len();
        let ghost products = self@.products;
        let mut i: usize = 0;
        assert(products.take(0) =~= Seq::empty());
        while i < count && found.len() < limit
            invariant
                i <= count,
                count == self.products.values().len(),
                products == self@.products,
                limit == query_limit(query@),
                found@.len() <= limit,
                found.deep_view() == matching(products.take(i as int), query@),
            decreases count - i,
        {
            let record: &ProductRecord = self.products.value_at(i);
            let ghost earlier = products.take(i as int);
            let ghost later = products.take(i + 1);
            proof {
                assert(later.drop_last() =~= earlier);
                assert(later.last() == record.product@);
            }
            if matches_query(&record.product, &query) {
                let ghost before = found.deep_view();
                found.push(record.product.clone());
                assert(found.deep_view() =~= before.push(record.product@));
            }
            i = i + 1;
        }
        proof {
            lemma_matching_prefix(products, query@, i as int);
            let part = matching(products.take(i as int), query@);
            let all = matching(products, query@);
            if i == count {
                assert(products.take(i as int) =~= products);
            } else {
                assert(part.len() == limit);
                assert(all.take(limit as int) == part);
            }
        }
        found
    }

    /// Counts of the products, of those in transit and of those delivered,
    /// of the partners and of the users, and the terms of every product's
    /// ethical score.
    pub fn get_analytics(&self) -> (analytics: AnalyticsData)
        ensures
            analytics.total_products == self@.products.len(),
            analytics.active_shipments == count_status(self@.products, ProductStatus::InTransit),
            analytics.completed_deliveries == count_status(
                self@.products,
                ProductStatus::Delivered,
            ),
            analytics.total_partners == self@.partners.len(),
            analytics.total_users == self@.users.len(),
            analytics.ethical_scores@.len() == self@.products.len(),
            forall|i: int|
                0 <= i < self@.products.len() ==> is_score_of(
                    #[trigger] analytics.ethical_scores@[i],
                    self@.products[i],
                    self@.ledgers[i],
                ),
    {
        let count: usize = self.products.len();
        let ghost products = self@.products;
        let mut active: u64 = 0;
        let mut completed: u64 = 0;
        let mut scores: Vec<EthicalScoreTerms> = Vec::new();
        let mut i: usize = 0;
        assert(products.take(0) =~= Seq::empty());
        while i < count
            invariant
                i <= count,
                count == self.products.values().len(),
                products == self@.products,
                active == count_status(products.take(i as int), ProductStatus::InTransit),
                completed == count_status(products.take(i as int), ProductStatus::Delivered),
                active <= i,
                completed <= i,
                scores@.len() == i,
                forall|j: int|
                    0 <= j < i ==> is_score_of(
                        #[trigger] scores@[j],
                        self@.products[j],
                        self@.ledgers[j],
                    ),
            decreases count - i,
        {
            let record: &ProductRecord = self.products.value_at(i);
            proof {
                let later = products.take(i + 1);
                assert(later.drop_last() =~= products.take(i as int));
                assert(later.last() == record.product@);
            }
            match record.product.current_status {
                ProductStatus::InTransit => {
                    active = active + 1;
                },
                ProductStatus::Delivered => {
                    completed = completed + 1;
                },
                _ => {},
            }
            scores.push(score_terms(record));
            i = i + 1;
        }
        assert(products.take(count as int) =~= products);
        AnalyticsData {
            total_products: count as u64,
            active_shipments: active,
            completed_deliveries: completed,
            ethical_scores: scores,
            total_partners: self.partners.len() as u64,
            total_users: self.users.len() as u64,
        }
    }

    /// The version of the registry, the counts of its products, users and
    /// events, and the time `now` of the report.
    pub fn get_canister_status(&self, now: u64) -> (status: CanisterStatus)
        ensures
            status.version@ == "1.0.0"@,
            status.total_products == self@.products.len(),
            status.total_users == self@.users.len(),
            status.total_events == if total_events(self@.ledgers) <= u64::MAX {
                total_events(self@.ledgers)
            } else {
                u64::MAX as nat
            },
            status.uptime == now,
    {
        let count: usize = self.products.len();
        let ghost ledgers = self@.ledgers;
        let mut events: u64 = 0;
        let mut i: usize = 0;
        assert(ledgers.take(0) =~= Seq::empty());
        while i < count
            invariant
                i <= count,
                count == self.products.values().len(),
                ledgers == self@.ledgers,
                events == if total_events(ledgers.take(i as int)) <= u64::MAX {
                    total_events(ledgers.take(i as int))
                } else {
                    u64::MAX as nat
                },
            decreases count - i,
        {
            let record: &ProductRecord = self.products.value_at(i);
            proof {
                let later = ledgers.take(i + 1);
                assert(later.drop_last() =~= ledgers.take(i as int));
                assert(later.last() == record.events@);
            }
            events = events.saturating_add(record.events.0.len() as u64);
            i = i + 1;
        }
        assert(ledgers.take(count as int) =~= ledgers);
        CanisterStatus {
            version: String::from_str("1.0.0"),
            total_products: count as u64,
            total_users: self.users.len() as u64,
            total_events: events,
            uptime: now,
        }
    }
}

/// The terms of the ethical score of a product with its ledger.
fn score_terms(record: &ProductRecord) -> (terms: EthicalScoreTerms)
    ensures
        is_score_of(terms, record.product@, record.events@),
{
    let base: u64 = match record.product.sustainability_score {
        Some(bits) => bits,
        None => DEFAULT_SUSTAINABILITY_SCORE,
    };
    let events: &Vec<SupplyChainEvent> = &record.events.0;
    let ghost ledger = record.events@;
    let mut certified: u64 = 0;
    let mut i: usize = 0;
    assert(ledger.take(0) =~= Seq::empty());
    while i < events.len()
        invariant
            i <= events@.len(),
            ledger == record.events@,
            events == &record.events.0,
            certified == certified_events(ledger.take(i as int)),
            certified <= i,
        decreases events@.len() - i,
    {
        proof {
            let later = ledger.take(i + 1);
            assert(later.drop_last() =~= ledger.take(i as int));
            assert(later.last() == events@[i as int]@);
            assert(events@[i as int]@.certifications.len() == events@[i as int].certifications@.len());
        }
        if events[i].certifications.len() > 0 {
            certified = certified + 1;
        }
        i = i + 1;
    }
    assert(ledger.take(events@.len() as int) =~= ledger);
    assert(record.product@.certifications.len() == record.product.certifications@.len());
    EthicalScoreTerms {
        base,
        certifications: record.product.certifications.len() as u64,
        certified_events: certified,
    }
}

/// Whether `ledger` can be the ledger of `product`: it is not empty, all its
/// events name the product, and the product has the status and the location
/// that follow from the last event.
pub fn ledger_fits_product(product: &Product, ledger: &SupplyChainEventList) -> (fits: bool)
    ensures
        fits == ledger_fits(product@, ledger@),
{
    let events: &Vec<SupplyChainEvent> = &ledger.0;
    let count: usize = events.len();
    if count == 0 {
        return false;
    }
    let mut j: usize = 0;
    while j < count
        invariant
            j <= count,
            count == events@.len(),
            events == &ledger.0,
            forall|k: int| 0 <= k < j ==> (#[trigger] ledger@[k]).product_id == product@.id,
        decreases count - j,
    {
        if !(events[j].product_id == product.id) {
            assert(ledger@[j as int].product_id != product@.id);
            return false;
        }
        j = j + 1;
    }
    let last: &SupplyChainEvent = &events[count - 1];
    assert(ledger@.last() == last@);
    stage_to_product_status(&last.stage) == product.current_status && last.location
        == product.current_location
}

} // verus!
