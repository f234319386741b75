//! The records that the registry stores and exchanges, each with its view:
//! the same record with every string as a sequence of characters and every
//! list as a sequence.
//!
//! A sustainability score or an estimated value is a binary64 number that
//! the registry stores but never computes with; it is held as its IEEE 754
//! bit pattern.

use vstd::prelude::*;
use std::collections::HashMap;
pub use crate::roles::{
    EventStatus,
    PartnerType,
    ProductStatus,
    SupplyChainStage,
    UserPermissions,
    UserRole,
};

verus! {

/// The identifier of a caller: up to 29 bytes chosen by the host, which
/// vouches for them.
#[derive(Debug)]
pub struct Identity {
    pub bytes: Vec<u8>,
}

impl View for Identity {
    type V = Seq<u8>;

    open spec fn view(&self) -> Seq<u8> {
        self.bytes@
    }
}

/// The bytes of the identity that stands for an unauthenticated caller.
pub open spec fn anonymous_identity() -> Seq<u8> {
    seq![4u8]
}

impl Identity {
    /// The identity of an unauthenticated caller.
    pub fn anonymous() -> (identity: Identity)
        ensures
            identity@ == anonymous_identity(),
    {
        let mut bytes: Vec<u8> = Vec::new();
        bytes.push(4u8);
        assert(bytes@ =~= anonymous_identity());
        Identity { bytes }
    }

    /// Whether this is the identity of an unauthenticated caller.
    pub fn is_anonymous(&self) -> (anonymous: bool)
        ensures
            anonymous == (self@ == anonymous_identity()),
    {
        let anonymous: bool = self.bytes.len() == 1 && self.bytes[0] == 4u8;
        assert(anonymous ==> self@ =~= anonymous_identity());
        anonymous
    }
}

impl Clone for Identity {
    fn clone(&self) -> (copy: Identity)
        ensures
            copy@ == self@,
    {
        Identity { bytes: self.bytes.clone() }
    }
}

/// A registered user.
#[derive(Debug)]
pub struct User {
    pub id: Identity,
    pub email: String,
    pub first_name: String,
    pub last_name: String,
    pub company: String,
    pub role: UserRole,
    pub created_at: u64,
    pub is_verified: bool,
    /// The capabilities of `role` as they were when the user registered.
    pub permissions: UserPermissions,
}

/// The view of a user.
pub struct UserView {
    pub id: Seq<u8>,
    pub email: Seq<char>,
    pub first_name: Seq<char>,
    pub last_name: Seq<char>,
    pub company: Seq<char>,
    pub role: UserRole,
    pub created_at: u64,
    pub is_verified: bool,
    pub permissions: UserPermissions,
}

impl View for User {
    type V = UserView;

    open spec fn view(&self) -> UserView {
        UserView {
            id: self.id@,
            email: self.email@,
            first_name: self.first_name@,
            last_name: self.last_name@,
            company: self.company@,
            role: self.role,
            created_at: self.created_at,
            is_verified: self.is_verified,
            permissions: self.permissions,
        }
    }
}

impl DeepView for User {
    type V = UserView;

    open spec fn deep_view(&self) -> UserView {
        self@
    }
}

impl Clone for User {
    fn clone(&self) -> (copy: User)
        ensures
            copy@ == self@,
    {
        User {
            id: self.id.clone(),
            email: self.email.clone(),
            first_name: self.first_name.clone(),
            last_name: self.last_name.clone(),
            company: self.company.clone(),
            role: self.role,
            created_at: self.created_at,
            is_verified: self.is_verified,
            permissions: self.permissions,
        }
    }
}

/// What a caller states of itself when it registers.
#[derive(Debug)]
pub struct UserRegistration {
    pub email: String,
    pub first_name: String,
    pub last_name: String,
    pub company: String,
    pub role: UserRole,
}

/// The view of a registration of a user.
pub struct UserRegistrationView {
    pub email: Seq<char>,
    pub first_name: Seq<char>,
    pub last_name: Seq<char>,
    pub company: Seq<char>,
    pub role: UserRole,
}

impl View for UserRegistration {
    type V = UserRegistrationView;

    open spec fn view(&self) -> UserRegistrationView {
        UserRegistrationView {
            email: self.email@,
            first_name: self.first_name@,
            last_name: self.last_name@,
            company: self.company@,
            role: self.role,
        }
    }
}

/// A copy of a list of strings.
pub fn clone_strings(list: &Vec<String>) -> (copy: Vec<String>)
    ensures
        copy.deep_view() == list.deep_view(),
{
    let mut copy: Vec<String> = Vec::new();
    let mut i: usize = 0;
    while i < list.len()
        invariant
            i <= list.len(),
            copy@.len() == i,
            forall|j: int| 0 <= j < i ==> copy@[j]@ == list@[j]@,
        decreases list.len() - i,
    {
        copy.push(list[i].clone());
        i = i + 1;
    }
    assert(copy.deep_view() =~= list.deep_view());
    copy
}

/// A copy of a string that may be absent.
pub fn clone_optional_string(text: &Option<String>) -> (copy: Option<String>)
    ensures
        copy.deep_view() == text.deep_view(),
{
    match text {
        Some(t) => Some(t.clone()),
        None => None,
    }
}

/// A product as the registry knows it.
#[derive(Debug)]
pub struct Product {
    pub id: String,
    pub name: String,
    pub category: String,
    pub description: Option<String>,
    pub manufacturer: String,
    pub manufacturer_id: Identity,
    pub batch_number: Option<String>,
    pub production_date: u64,
    pub raw_materials: Vec<String>,
    pub certifications: Vec<String>,
    /// Bit pattern of a binary64 number.
    pub sustainability_score: Option<u64>,
    /// Bit pattern of a binary64 number.
    pub estimated_value: Option<u64>,
    /// The status that the stage of the last event implies.
    pub current_status: ProductStatus,
    /// The location of the last event.
    pub current_location: String,
    pub created_at: u64,
    pub updated_at: u64,
}

/// The view of a product.
pub struct ProductView {
    pub id: Seq<char>,
    pub name: Seq<char>,
    pub category: Seq<char>,
    pub description: Option<Seq<char>>,
    pub manufacturer: Seq<char>,
    pub manufacturer_id: Seq<u8>,
    pub batch_number: Option<Seq<char>>,
    pub production_date: u64,
    pub raw_materials: Seq<Seq<char>>,
    pub certifications: Seq<Seq<char>>,
    pub sustainability_score: Option<u64>,
    pub estimated_value: Option<u64>,
    pub current_status: ProductStatus,
    pub current_location: Seq<char>,
    pub created_at: u64,
    pub updated_at: u64,
}

impl View for Product {
    type V = ProductView;

    open spec fn view(&self) -> ProductView {
        ProductView {
            id: self.id@,
            name: self.name@,
            category: self.category@,
            description: self.description.deep_view(),
            manufacturer: self.manufacturer@,
            manufacturer_id: self.manufacturer_id@,
            batch_number: self.batch_number.deep_view(),
            production_date: self.production_date,
            raw_materials: self.raw_materials.deep_view(),
            certifications: self.certifications.deep_view(),
            sustainability_score: self.sustainability_score,
            estimated_value: self.estimated_value,
            current_status: self.current_status,
            current_location: self.current_location@,
            created_at: self.created_at,
            updated_at: self.updated_at,
        }
    }
}

impl DeepView for Product {
    type V = ProductView;

    open spec fn deep_view(&self) -> ProductView {
        self@
    }
}

impl Clone for Product {
    fn clone(&self) -> (copy: Product)
        ensures
            copy@ == self@,
    {
        Product {
            id: self.id.clone(),
            name: self.name.clone(),
            category: self.category.clone(),
            description: clone_optional_string(&self.description),
            manufacturer: self.manufacturer.clone(),
            manufacturer_id: self.manufacturer_id.clone(),
            batch_number: clone_optional_string(&self.batch_number),
            production_date: self.production_date,
            raw_materials: clone_strings(&self.raw_materials),
            certifications: clone_strings(&self.certifications),
            sustainability_score: self.sustainability_score,
            estimated_value: self.estimated_value,
            current_status: self.current_status,
            current_location: self.current_location.clone(),
            created_at: self.created_at,
            updated_at: self.updated_at,
        }
    }
}

/// What a caller states of a product that it registers.
#[derive(Debug)]
pub struct ProductRegistration {
    pub name: String,
    pub category: String,
    pub description: Option<String>,
    pub batch_number: Option<String>,
    pub production_date: u64,
    pub manufacturing_location: String,
    pub raw_materials: Vec<String>,
    pub certifications: Vec<String>,
    /// Bit pattern of a binary64 number.
    pub sustainability_score: Option<u64>,
    /// Bit pattern of a binary64 number.
    pub estimated_value: Option<u64>,
}

/// The view of a registration of a product.
pub struct ProductRegistrationView {
    pub name: Seq<char>,
    pub category: Seq<char>,
    pub description: Option<Seq<char>>,
    pub batch_number: Option<Seq<char>>,
    pub production_date: u64,
    pub manufacturing_location: Seq<char>,
    pub raw_materials: Seq<Seq<char>>,
    pub certifications: Seq<Seq<char>>,
    pub sustainability_score: Option<u64>,
    pub estimated_value: Option<u64>,
}

impl View for ProductRegistration {
    type V = ProductRegistrationView;

    open spec fn view(&self) -> ProductRegistrationView {
        ProductRegistrationView {
            name: self.name@,
            category: self.category@,
            description: self.description.deep_view(),
            batch_number: self.batch_number.deep_view(),
            production_date: self.production_date,
            manufacturing_location: self.manufacturing_location@,
            raw_materials: self.raw_materials.deep_view(),
            certifications: self.certifications.deep_view(),
            sustainability_score: self.sustainability_score,
            estimated_value: self.estimated_value,
        }
    }
}

/// One entry of a product's ledger.
#[derive(Debug)]
pub struct SupplyChainEvent {
    pub id: String,
    pub product_id: String,
    pub stage: SupplyChainStage,
    pub location: String,
    pub timestamp: u64,
    /// The company of the user who recorded the event, as it was then.
    pub actor: String,
    pub actor_id: Identity,
    pub status: EventStatus,
    pub details: String,
    pub certifications: Vec<String>,
    pub estimated_arrival: Option<u64>,
    pub metadata: HashMap<String, String>,
}

/// The view of an event.
pub struct SupplyChainEventView {
    pub id: Seq<char>,
    pub product_id: Seq<char>,
    pub stage: SupplyChainStage,
    pub location: Seq<char>,
    pub timestamp: u64,
    pub actor: Seq<char>,
    pub actor_id: Seq<u8>,
    pub status: EventStatus,
    pub details: Seq<char>,
    pub certifications: Seq<Seq<char>>,
    pub estimated_arrival: Option<u64>,
    pub metadata: Map<String, String>,
}

impl View for SupplyChainEvent {
    type V = SupplyChainEventView;

    open spec fn view(&self) -> SupplyChainEventView {
        SupplyChainEventView {
            id: self.id@,
            product_id: self.product_id@,
            stage: self.stage,
            location: self.location@,
            timestamp: self.timestamp,
            actor: self.actor@,
            actor_id: self.actor_id@,
            status: self.status,
            details: self.details@,
            certifications: self.certifications.deep_view(),
            estimated_arrival: self.estimated_arrival,
            metadata: self.metadata@,
        }
    }
}

impl DeepView for SupplyChainEvent {
    type V = SupplyChainEventView;

    open spec fn deep_view(&self) -> SupplyChainEventView {
        self@
    }
}

impl Clone for SupplyChainEvent {
    fn clone(&self) -> (copy: SupplyChainEvent)
        ensures
            copy@ == self@,
    {
        SupplyChainEvent {
            id: self.id.clone(),
            product_id: self.product_id.clone(),
            stage: self.stage,
            location: self.location.clone(),
            timestamp: self.timestamp,
            actor: self.actor.clone(),
            actor_id: self.actor_id.clone(),
            status: self.status,
            details: self.details.clone(),
            certifications: clone_strings(&self.certifications),
            estimated_arrival: self.estimated_arrival,
            metadata: self.metadata.clone(),
        }
    }
}

/// What a caller states of an event that it records.
#[derive(Debug)]
pub struct SupplyChainEventInput {
    pub product_id: String,
    pub stage: SupplyChainStage,
    pub location: String,
    pub status: EventStatus,
    pub details: String,
    pub certifications: Vec<String>,
    pub estimated_arrival: Option<u64>,
    pub metadata: HashMap<String, String>,
}

/// The view of the statement of an event.
pub struct SupplyChainEventInputView {
    pub product_id: Seq<char>,
    pub stage: SupplyChainStage,
    pub location: Seq<char>,
    pub status: EventStatus,
    pub details: Seq<char>,
    pub certifications: Seq<Seq<char>>,
    pub estimated_arrival: Option<u64>,
    pub metadata: Map<String, String>,
}

impl View for SupplyChainEventInput {
    type V = SupplyChainEventInputView;

    open spec fn view(&self) -> SupplyChainEventInputView {
        SupplyChainEventInputView {
            product_id: self.product_id@,
            stage: self.stage,
            location: self.location@,
            status: self.status,
            details: self.details@,
            certifications: self.certifications.deep_view(),
            estimated_arrival: self.estimated_arrival,
            metadata: self.metadata@,
        }
    }
}

/// The ledger of one product: its events in the order in which they were
/// recorded.
#[derive(Debug)]
pub struct SupplyChainEventList(pub Vec<SupplyChainEvent>);

impl View for SupplyChainEventList {
    type V = Seq<SupplyChainEventView>;

    open spec fn view(&self) -> Seq<SupplyChainEventView> {
        Seq::new(self.0@.len(), |i: int| self.0@[i]@)
    }
}

impl DeepView for SupplyChainEventList {
    type V = Seq<SupplyChainEventView>;

    open spec fn deep_view(&self) -> Seq<SupplyChainEventView> {
        self@
    }
}

impl Clone for SupplyChainEventList {
    fn clone(&self) -> (copy: SupplyChainEventList)
        ensures
            copy@ == self@,
    {
        let mut events: Vec<SupplyChainEvent> = Vec::new();
        let mut i: usize = 0;
        while i < self.0.len()
            invariant
                i <= self.0.len(),
                events@.len() == i,
                forall|j: int| 0 <= j < i ==> events@[j]@ == self.0@[j]@,
            decreases self.0.len() - i,
        {
            events.push(self.0[i].clone());
            i = i + 1;
        }
        let copy = SupplyChainEventList(events);
        assert(copy@ =~= self@);
        copy
    }
}

/// A company that takes part in the supply chain.
#[derive(Debug)]
pub struct Partner {
    pub id: Identity,
    pub company_name: String,
    pub partner_type: PartnerType,
    pub contact_email: String,
    pub contact_person: String,
    pub certifications: Vec<String>,
    pub verified: bool,
    pub created_at: u64,
    pub reputation_score: u32,
}

/// The view of a partner.
pub struct PartnerView {
    pub id: Seq<u8>,
    pub company_name: Seq<char>,
    pub partner_type: PartnerType,
    pub contact_email: Seq<char>,
    pub contact_person: Seq<char>,
    pub certifications: Seq<Seq<char>>,
    pub verified: bool,
    pub created_at: u64,
    pub reputation_score: u32,
}

impl View for Partner {
    type V = PartnerView;

    open spec fn view(&self) -> PartnerView {
        PartnerView {
            id: self.id@,
            company_name: self.company_name@,
            partner_type: self.partner_type,
            contact_email: self.contact_email@,
            contact_person: self.contact_person@,
            certifications: self.certifications.deep_view(),
            verified: self.verified,
            created_at: self.created_at,
            reputation_score: self.reputation_score,
        }
    }
}

impl DeepView for Partner {
    type V = PartnerView;

    open spec fn deep_view(&self) -> PartnerView {
        self@
    }
}

impl Clone for Partner {
    fn clone(&self) -> (copy: Partner)
        ensures
            copy@ == self@,
    {
        Partner {
            id: self.id.clone(),
            company_name: self.company_name.clone(),
            partner_type: self.partner_type,
            contact_email: self.contact_email.clone(),
            contact_person: self.contact_person.clone(),
            certifications: clone_strings(&self.certifications),
            verified: self.verified,
            created_at: self.created_at,
            reputation_score: self.reputation_score,
        }
    }
}

/// What a caller states of the partner that it registers.
#[derive(Debug)]
pub struct PartnerRegistration {
    pub company_name: String,
    pub partner_type: PartnerType,
    pub contact_email: String,
    pub contact_person: String,
    pub certifications: Vec<String>,
}

/// The view of a registration of a partner.
pub struct PartnerRegistrationView {
    pub company_name: Seq<char>,
    pub partner_type: PartnerType,
    pub contact_email: Seq<char>,
    pub contact_person: Seq<char>,
    pub certifications: Seq<Seq<char>>,
}

impl View for PartnerRegistration {
    type V = PartnerRegistrationView;

    open spec fn view(&self) -> PartnerRegistrationView {
        PartnerRegistrationView {
            company_name: self.company_name@,
            partner_type: self.partner_type,
            contact_email: self.contact_email@,
            contact_person: self.contact_person@,
            certifications: self.certifications.deep_view(),
        }
    }
}

/// What to look for among the products. A filter that is absent admits
/// every product.
#[derive(Debug)]
pub struct ProductSearchQuery {
    /// Occurs in the product's name, letter case aside.
    pub name: Option<String>,
    /// Is the product's category.
    pub category: Option<String>,
    /// Occurs in the manufacturer's name, letter case aside.
    pub manufacturer: Option<String>,
    /// Is the product's status.
    pub status: Option<ProductStatus>,
    /// How many products to return at most; 50 where absent.
    pub limit: Option<u32>,
}

/// The view of a search query.
pub struct ProductSearchQueryView {
    pub name: Option<Seq<char>>,
    pub category: Option<Seq<char>>,
    pub manufacturer: Option<Seq<char>>,
    pub status: Option<ProductStatus>,
    pub limit: Option<u32>,
}

impl View for ProductSearchQuery {
    type V = ProductSearchQueryView;

    open spec fn view(&self) -> ProductSearchQueryView {
        ProductSearchQueryView {
            name: self.name.deep_view(),
            category: self.category.deep_view(),
            manufacturer: self.manufacturer.deep_view(),
            status: self.status,
            limit: self.limit,
        }
    }
}

/// The bit pattern of the binary64 number 50, the sustainability score of a
/// product that states none.
pub const DEFAULT_SUSTAINABILITY_SCORE: u64 = 0x4049_0000_0000_0000;

/// The three terms of a product's ethical score. The score is the base, plus
/// 5 for each certification of the product, plus 2 for each event that
/// carries a certification, added one event at a time, and at most 100. It
/// is a binary64 computation, which is left to the caller.
#[derive(Clone, Copy, Debug, PartialEq, Eq, Structural)]
pub struct EthicalScoreTerms {
    /// Bit pattern of the binary64 sustainability score.
    pub base: u64,
    /// The number of certifications of the product.
    pub certifications: u64,
    /// The number of events in the ledger that carry a certification.
    pub certified_events: u64,
}

/// A product with its ledger and the terms of its ethical score.
#[derive(Debug)]
pub struct ProductWithHistory {
    pub product: Product,
    pub supply_chain_events: Vec<SupplyChainEvent>,
    pub ethical_score: EthicalScoreTerms,
}

/// Counts over the whole registry.
#[derive(Debug)]
pub struct AnalyticsData {
    pub total_products: u64,
    /// Products whose status is `InTransit`.
    pub active_shipments: u64,
    /// Products whose status is `Delivered`.
    pub completed_deliveries: u64,
    /// The terms of the ethical score of every product, in the order of the
    /// products; their average is the caller's to compute.
    pub ethical_scores: Vec<EthicalScoreTerms>,
    pub total_partners: u64,
    pub total_users: u64,
}

/// What the registry reports of itself.
#[derive(Debug)]
pub struct CanisterStatus {
    pub version: String,
    pub total_products: u64,
    pub total_users: u64,
    /// The number of events in all ledgers, or the largest 64-bit number if
    /// there are more.
    pub total_events: u64,
    /// The time of the report; not a duration.
    pub uptime: u64,
}

} // verus!
