//! The registry as a mathematical state: what it holds, which states are
//! valid, and the state that each write operation leads to.
//!
//! Users and partners are kept in ascending order of their identities,
//! shorter identities first; products in ascending order of the UTF-8 bytes of
//! their identifiers. The ledger at a position belongs to the product at that
//! position.

use vstd::prelude::*;
use vstd::utf8::encode_utf8;
use crate::errors::StoreError;
use crate::order::{ascending, KeyOrder};
use crate::roles::{
    stage_to_status,
    EventStatus,
    ProductStatus,
    SupplyChainStage,
    UserRole,
};
use crate::storage::permissions_for;
use crate::table::upsert_values;
use crate::types::{
    anonymous_identity,
    EthicalScoreTerms,
    DEFAULT_SUSTAINABILITY_SCORE,
    PartnerRegistrationView,
    PartnerView,
    ProductRegistrationView,
    ProductView,
    SupplyChainEventInputView,
    SupplyChainEventView,
    UserRegistrationView,
    UserView,
};
use crate::utils::{event_id_for, product_id_for};

verus! {

/// The key under which a product is kept: its identifier in UTF-8.
pub open spec fn product_key(id: Seq<char>) -> Seq<u8> {
    encode_utf8(id)
}

/// Everything the registry holds.
pub struct StoreState {
    pub users: Seq<UserView>,
    pub products: Seq<ProductView>,
    pub ledgers: Seq<Seq<SupplyChainEventView>>,
    pub partners: Seq<PartnerView>,
}

/// A ledger that fits its product: it is not empty, all its events name the
/// product, and the product's status and location are those of the last event.
pub open spec fn ledger_fits(product: ProductView, ledger: Seq<SupplyChainEventView>) -> bool {
    &&& ledger.len() > 0
    &&& forall|j: int| 0 <= j < ledger.len() ==> (#[trigger] ledger[j]).product_id == product.id
    &&& product.current_status == stage_to_status(ledger.last().stage)
    &&& product.current_location == ledger.last().location
}

impl StoreState {
    /// The registry before anything was registered.
    pub open spec fn empty() -> StoreState {
        StoreState {
            users: Seq::empty(),
            products: Seq::empty(),
            ledgers: Seq::empty(),
            partners: Seq::empty(),
        }
    }

    /// The keys of the users, in their order: their identities.
    pub open spec fn user_keys(self) -> Seq<Seq<u8>> {
        self.users.map_values(|u: UserView| u.id)
    }

    /// The keys of the products, in their order.
    pub open spec fn product_keys(self) -> Seq<Seq<u8>> {
        self.products.map_values(|p: ProductView| product_key(p.id))
    }

    /// The keys of the partners, in their order: their identities.
    pub open spec fn partner_keys(self) -> Seq<Seq<u8>> {
        self.partners.map_values(|p: PartnerView| p.id)
    }

    /// The states that the registry can be in: every table in ascending order
    /// of its keys, so that no key occurs twice, and every product with a
    /// ledger that fits it.
    pub open spec fn wf(self) -> bool {
        &&& ascending(KeyOrder::LengthFirst, self.user_keys())
        &&& ascending(KeyOrder::Lexicographic, self.product_keys())
        &&& ascending(KeyOrder::LengthFirst, self.partner_keys())
        &&& self.ledgers.len() == self.products.len()
        &&& forall|i: int|
            0 <= i < self.products.len() ==> ledger_fits(
                #[trigger] self.products[i],
                self.ledgers[i],
            )
    }

    /// Whether a user is registered under `id`.
    pub open spec fn has_user(self, id: Seq<u8>) -> bool {
        self.user_keys().contains(id)
    }

    /// The user registered under `id`.
    pub open spec fn user(self, id: Seq<u8>) -> UserView
        recommends
            self.has_user(id),
    {
        self.users[self.user_keys().index_of(id)]
    }

    /// Whether a product is registered under `id`.
    pub open spec fn has_product(self, id: Seq<char>) -> bool {
        self.product_keys().contains(product_key(id))
    }

    /// The position of the product `id` and of its ledger.
    pub open spec fn product_index(self, id: Seq<char>) -> int
        recommends
            self.has_product(id),
    {
        self.product_keys().index_of(product_key(id))
    }

    /// The product registered under `id`.
    pub open spec fn product(self, id: Seq<char>) -> ProductView
        recommends
            self.has_product(id),
    {
        self.products[self.product_index(id)]
    }

    /// The ledger of the product registered under `id`.
    pub open spec fn ledger(self, id: Seq<char>) -> Seq<SupplyChainEventView>
        recommends
            self.has_product(id),
    {
        self.ledgers[self.product_index(id)]
    }

    /// Whether a partner is registered under `id`.
    pub open spec fn has_partner(self, id: Seq<u8>) -> bool {
        self.partner_keys().contains(id)
    }

    /// The partner registered under `id`.
    pub open spec fn partner(self, id: Seq<u8>) -> PartnerView
        recommends
            self.has_partner(id),
    {
        self.partners[self.partner_keys().index_of(id)]
    }

    /// This state with `user` stored under its identity, in place of the user
    /// that was stored under it, if any.
    pub open spec fn store_user(self, user: UserView) -> StoreState {
        StoreState {
            users: upsert_values(
                KeyOrder::LengthFirst,
                self.user_keys(),
                self.users,
                user.id,
                user,
            ),
            ..self
        }
    }

    /// This state with `product` and `ledger` stored under the product's
    /// identifier, in place of what was stored under it, if anything.
    pub open spec fn store_product(
        self,
        product: ProductView,
        ledger: Seq<SupplyChainEventView>,
    ) -> StoreState {
        StoreState {
            products: upsert_values(
                KeyOrder::Lexicographic,
                self.product_keys(),
                self.products,
                product_key(product.id),
                product,
            ),
            ledgers: upsert_values(
                KeyOrder::Lexicographic,
                self.product_keys(),
                self.ledgers,
                product_key(product.id),
                ledger,
            ),
            ..self
        }
    }

    /// This state with `partner` stored under its identity, in place of the
    /// partner that was stored under it, if any.
    pub open spec fn store_partner(self, partner: PartnerView) -> StoreState {
        StoreState {
            partners: upsert_values(
                KeyOrder::LengthFirst,
                self.partner_keys(),
                self.partners,
                partner.id,
                partner,
            ),
            ..self
        }
    }

    /// Why `caller` may not use the capability that `allowed` reads from a
    /// user's permissions, or `None` if it may.
    pub open spec fn refusal(
        self,
        caller: Seq<u8>,
        allowed: bool,
        lacking: StoreError,
    ) -> Option<StoreError> {
        if !self.has_user(caller) {
            Some(StoreError::UserNotFound)
        } else if !allowed {
            Some(lacking)
        } else {
            None
        }
    }
}

// Registering a user

/// Why `caller` may not register, or `None` if it may.
pub open spec fn register_user_refusal(caller: Seq<u8>) -> Option<StoreError> {
    if caller == anonymous_identity() {
        Some(StoreError::AnonymousCaller)
    } else {
        None
    }
}

/// The record of a user who registers at `now`.
pub open spec fn new_user(caller: Seq<u8>, data: UserRegistrationView, now: u64) -> UserView {
    UserView {
        id: caller,
        email: data.email,
        first_name: data.first_name,
        last_name: data.last_name,
        company: data.company,
        role: data.role,
        created_at: now,
        is_verified: false,
        permissions: permissions_for(data.role),
    }
}

/// The state after `caller` asked to be registered: its record is new or
/// replaces the one it had.
pub open spec fn after_register_user(
    s: StoreState,
    caller: Seq<u8>,
    data: UserRegistrationView,
    now: u64,
) -> StoreState {
    if register_user_refusal(caller) is Some {
        s
    } else {
        s.store_user(new_user(caller, data, now))
    }
}

// Verifying a user

/// Why `caller` may not set the verification flag of `target`, or `None` if
/// it may.
pub open spec fn verification_refusal(
    s: StoreState,
    caller: Seq<u8>,
    target: Seq<u8>,
) -> Option<StoreError> {
    if !s.has_user(caller) {
        Some(StoreError::UserNotFound)
    } else if s.user(caller).role != UserRole::Admin {
        Some(StoreError::AdminRequired)
    } else if !s.has_user(target) {
        Some(StoreError::UserNotFound)
    } else {
        None
    }
}

/// The state after `caller` asked to set the verification flag of `target`.
pub open spec fn after_update_user_verification(
    s: StoreState,
    caller: Seq<u8>,
    target: Seq<u8>,
    verified: bool,
) -> StoreState {
    if verification_refusal(s, caller, target) is Some {
        s
    } else {
        s.store_user(UserView { is_verified: verified, ..s.user(target) })
    }
}

// Registering a product

/// Why `caller` may not register a product, or `None` if it may.
pub open spec fn register_product_refusal(s: StoreState, caller: Seq<u8>) -> Option<StoreError> {
    s.refusal(
        caller,
        s.user(caller).permissions.can_register_products,
        StoreError::CannotRegisterProducts,
    )
}

/// The record of a product that `manufacturer` registers at `now`.
pub open spec fn new_product(
    manufacturer: UserView,
    data: ProductRegistrationView,
    now: u64,
) -> ProductView {
    ProductView {
        id: product_id_for(data.category, now),
        name: data.name,
        category: data.category,
        description: data.description,
        manufacturer: manufacturer.company,
        manufacturer_id: manufacturer.id,
        batch_number: data.batch_number,
        production_date: data.production_date,
        raw_materials: data.raw_materials,
        certifications: data.certifications,
        sustainability_score: data.sustainability_score,
        estimated_value: data.estimated_value,
        current_status: ProductStatus::Manufacturing,
        current_location: data.manufacturing_location,
        created_at: now,
        updated_at: now,
    }
}

/// The event with which the ledger of a new product starts.
pub open spec fn initial_event(
    manufacturer: UserView,
    data: ProductRegistrationView,
    now: u64,
) -> SupplyChainEventView {
    SupplyChainEventView {
        id: event_id_for(now),
        product_id: product_id_for(data.category, now),
        stage: SupplyChainStage::RawMaterialSourcing,
        location: data.manufacturing_location,
        timestamp: now,
        actor: manufacturer.company,
        actor_id: manufacturer.id,
        status: EventStatus::Completed,
        details: "Product registered and initial sourcing completed"@,
        certifications: data.certifications,
        estimated_arrival: None,
        metadata: Map::empty(),
    }
}

/// The state after `caller` asked to register a product. Where the new
/// identifier is already in use, the new product and its one-event ledger
/// replace what was stored under it.
pub open spec fn after_register_product(
    s: StoreState,
    caller: Seq<u8>,
    data: ProductRegistrationView,
    now: u64,
) -> StoreState {
    if register_product_refusal(s, caller) is Some {
        s
    } else {
        s.store_product(
            new_product(s.user(caller), data, now),
            seq![initial_event(s.user(caller), data, now)],
        )
    }
}

// Recording an event

/// Why `caller` may not record `input`, or `None` if it may.
pub open spec fn add_event_refusal(
    s: StoreState,
    caller: Seq<u8>,
    input: SupplyChainEventInputView,
) -> Option<StoreError> {
    if !s.has_user(caller) {
        Some(StoreError::UserNotFound)
    } else if !s.user(caller).permissions.can_update_supply_chain {
        Some(StoreError::CannotUpdateSupplyChain)
    } else if !s.has_product(input.product_id) {
        Some(StoreError::ProductNotFound)
    } else {
        None
    }
}

/// The event that `actor` records at `now`.
pub open spec fn new_event(
    actor: UserView,
    input: SupplyChainEventInputView,
    now: u64,
) -> SupplyChainEventView {
    SupplyChainEventView {
        id: event_id_for(now),
        product_id: input.product_id,
        stage: input.stage,
        location: input.location,
        timestamp: now,
        actor: actor.company,
        actor_id: actor.id,
        status: input.status,
        details: input.details,
        certifications: input.certifications,
        estimated_arrival: input.estimated_arrival,
        metadata: input.metadata,
    }
}

/// A product after an event at `stage` and `location` was recorded at `now`.
pub open spec fn moved_product(
    product: ProductView,
    stage: SupplyChainStage,
    location: Seq<char>,
    now: u64,
) -> ProductView {
    ProductView {
        current_status: stage_to_status(stage),
        current_location: location,
        updated_at: now,
        ..product
    }
}

/// The state after `caller` asked to record `input`: the event is the last of
/// the product's ledger, and the product has the status and location that
/// follow from it.
pub open spec fn after_add_event(
    s: StoreState,
    caller: Seq<u8>,
    input: SupplyChainEventInputView,
    now: u64,
) -> StoreState {
    if add_event_refusal(s, caller, input) is Some {
        s
    } else {
        s.store_product(
            moved_product(s.product(input.product_id), input.stage, input.location, now),
            s.ledger(input.product_id).push(new_event(s.user(caller), input, now)),
        )
    }
}

// Registering a partner

/// Why `caller` may not register a partner, or `None` if it may.
pub open spec fn register_partner_refusal(s: StoreState, caller: Seq<u8>) -> Option<StoreError> {
    s.refusal(
        caller,
        s.user(caller).permissions.can_manage_partners,
        StoreError::CannotManagePartners,
    )
}

/// The record of the partner that `caller` registers at `now`.
pub open spec fn new_partner(
    caller: Seq<u8>,
    data: PartnerRegistrationView,
    now: u64,
) -> PartnerView {
    PartnerView {
        id: caller,
        company_name: data.company_name,
        partner_type: data.partner_type,
        contact_email: data.contact_email,
        contact_person: data.contact_person,
        certifications: data.certifications,
        verified: false,
        created_at: now,
        reputation_score: 0,
    }
}

/// The state after `caller` asked to register a partner: the record is new or
/// replaces the one stored under the caller's identity.
pub open spec fn after_register_partner(
    s: StoreState,
    caller: Seq<u8>,
    data: PartnerRegistrationView,
    now: u64,
) -> StoreState {
    if register_partner_refusal(s, caller) is Some {
        s
    } else {
        s.store_partner(new_partner(caller, data, now))
    }
}

// Derived figures

/// How many events of `ledger` carry at least one certification.
pub open spec fn certified_events(ledger: Seq<SupplyChainEventView>) -> nat
    decreases ledger.len(),
{
    if ledger.len() == 0 {
        0
    } else {
        certified_events(ledger.drop_last()) + if ledger.last().certifications.len() > 0 {
            1nat
        } else {
            0nat
        }
    }
}

/// `terms` are the terms of the ethical score of `product` with `ledger`:
/// the product's sustainability score, or 50 if it states none, the number
/// of its certifications, and the number of events that carry one.
pub open spec fn is_score_of(
    terms: EthicalScoreTerms,
    product: ProductView,
    ledger: Seq<SupplyChainEventView>,
) -> bool {
    &&& terms.base == match product.sustainability_score {
        Some(bits) => bits,
        None => DEFAULT_SUSTAINABILITY_SCORE,
    }
    &&& terms.certifications == product.certifications.len()
    &&& terms.certified_events == certified_events(ledger)
}

/// How many of `products` have the status `status`.
pub open spec fn count_status(products: Seq<ProductView>, status: ProductStatus) -> nat
    decreases products.len(),
{
    if products.len() == 0 {
        0
    } else {
        count_status(products.drop_last(), status) + if products.last().current_status == status {
            1nat
        } else {
            0nat
        }
    }
}

/// How many events `ledgers` hold together.
pub open spec fn total_events(ledgers: Seq<Seq<SupplyChainEventView>>) -> nat
    decreases ledgers.len(),
{
    if ledgers.len() == 0 {
        0
    } else {
        total_events(ledgers.drop_last()) + ledgers.last().len()
    }
}

// Sequences of operations

/// A write operation with its arguments.
pub enum Operation {
    RegisterUser { caller: Seq<u8>, user: UserRegistrationView, now: u64 },
    UpdateUserVerification { caller: Seq<u8>, target: Seq<u8>, verified: bool },
    RegisterProduct { caller: Seq<u8>, product: ProductRegistrationView, now: u64 },
    AddEvent { caller: Seq<u8>, input: SupplyChainEventInputView, now: u64 },
    RegisterPartner { caller: Seq<u8>, partner: PartnerRegistrationView, now: u64 },
}

/// Why `operation` is refused in state `s`, or `None` if it is carried out.
pub open spec fn refusal_of(s: StoreState, operation: Operation) -> Option<StoreError> {
    match operation {
        Operation::RegisterUser { caller, user, now } => register_user_refusal(caller),
        Operation::UpdateUserVerification { caller, target, verified } => verification_refusal(
            s,
            caller,
            target,
        ),
        Operation::RegisterProduct { caller, product, now } => register_product_refusal(s, caller),
        Operation::AddEvent { caller, input, now } => add_event_refusal(s, caller, input),
        Operation::RegisterPartner { caller, partner, now } => register_partner_refusal(s, caller),
    }
}

/// The state after `operation` was asked for in state `s`.
pub open spec fn apply(s: StoreState, operation: Operation) -> StoreState {
    match operation {
        Operation::RegisterUser { caller, user, now } => after_register_user(s, caller, user, now),
        Operation::UpdateUserVerification {
            caller,
            target,
            verified,
        } => after_update_user_verification(s, caller, target, verified),
        Operation::RegisterProduct { caller, product, now } => after_register_product(
            s,
            caller,
            product,
            now,
        ),
        Operation::AddEvent { caller, input, now } => after_add_event(s, caller, input, now),
        Operation::RegisterPartner { caller, partner, now } => after_register_partner(
            s,
            caller,
            partner,
            now,
        ),
    }
}

/// The state after `operations` were asked for one after the other, the
/// first of them in state `s`.
pub open spec fn run(s: StoreState, operations: Seq<Operation>) -> StoreState
    decreases operations.len(),
{
    if operations.len() == 0 {
        s
    } else {
        apply(run(s, operations.drop_last()), operations.last())
    }
}

/// `operation` registers a product under an identifier that is in use in
/// state `s`, so that the product stored under it and its ledger are replaced.
pub open spec fn reuses_identifier(s: StoreState, operation: Operation) -> bool {
    operation matches Operation::RegisterProduct { caller, product, now } && refusal_of(s, operation)
        is None && s.has_product(product_id_for(product.category, now))
}

/// None of `operations`, asked for one after the other from state `s` on,
/// registers a product under an identifier that is in use when it is asked
/// for.
pub open spec fn never_reuses_identifier(s: StoreState, operations: Seq<Operation>) -> bool
    decreases operations.len(),
{
    if operations.len() == 0 {
        true
    } else {
        never_reuses_identifier(s, operations.drop_last()) && !reuses_identifier(
            run(s, operations.drop_last()),
            operations.last(),
        )
    }
}

/// `shorter` is how `longer` begins.
pub open spec fn is_prefix<T>(shorter: Seq<T>, longer: Seq<T>) -> bool {
    shorter.len() <= longer.len() && longer.take(shorter.len() as int) == shorter
}

/// Every product of `before` is a product of `after`, and its ledger in
/// `after` begins with its ledger in `before`.
pub open spec fn ledgers_extend(before: StoreState, after: StoreState) -> bool {
    forall|id: Seq<char>| #[trigger]
        before.has_product(id) ==> after.has_product(id) && is_prefix(
            before.ledger(id),
            after.ledger(id),
        )
}

// Rebuilding a registry from its records

/// `s` with each of `users` stored under its identity, one after the other.
pub open spec fn with_users(s: StoreState, users: Seq<UserView>) -> StoreState
    decreases users.len(),
{
    if users.len() == 0 {
        s
    } else {
        with_users(s, users.drop_last()).store_user(users.last())
    }
}

/// `s` with each of `partners` stored under its identity, one after the other.
pub open spec fn with_partners(s: StoreState, partners: Seq<PartnerView>) -> StoreState
    decreases partners.len(),
{
    if partners.len() == 0 {
        s
    } else {
        with_partners(s, partners.drop_last()).store_partner(partners.last())
    }
}

/// `s` with each of `products` stored under its identifier together with the
/// ledger at its position in `ledgers`, one after the other.
pub open spec fn with_products(
    s: StoreState,
    products: Seq<ProductView>,
    ledgers: Seq<Seq<SupplyChainEventView>>,
) -> StoreState
    recommends
        products.len() == ledgers.len(),
    decreases products.len(),
{
    if products.len() == 0 || ledgers.len() == 0 {
        s
    } else {
        with_products(s, products.drop_last(), ledgers.drop_last()).store_product(
            products.last(),
            ledgers.last(),
        )
    }
}

/// Records from which a registry can be rebuilt: as many ledgers as products,
/// and each ledger fits the product at its position.
pub open spec fn restorable(
    products: Seq<ProductView>,
    ledgers: Seq<Seq<SupplyChainEventView>>,
) -> bool {
    &&& products.len() == ledgers.len()
    &&& forall|i: int| 0 <= i < products.len() ==> ledger_fits(#[trigger] products[i], ledgers[i])
}

/// The registry that holds the given records. Of two records under one key
/// the later one stays.
pub open spec fn restored(
    users: Seq<UserView>,
    products: Seq<ProductView>,
    ledgers: Seq<Seq<SupplyChainEventView>>,
    partners: Seq<PartnerView>,
) -> StoreState {
    with_partners(with_products(with_users(StoreState::empty(), users), products, ledgers), partners)
}

} // verus!
