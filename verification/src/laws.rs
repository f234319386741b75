//! What holds of the registry in every state and across its operations.

use vstd::prelude::*;
use crate::errors::{ErrorKind, StoreError};
use crate::model::{
    add_event_refusal,
    apply,
    never_reuses_identifier,
    restorable,
    restored,
    with_partners,
    with_products,
    with_users,
    certified_events,
    is_prefix,
    ledgers_extend,
    refusal_of,
    reuses_identifier,
    run,
    Operation,
    after_add_event,
    after_register_partner,
    after_register_product,
    after_register_user,
    after_update_user_verification,
    initial_event,
    ledger_fits,
    moved_product,
    new_event,
    new_partner,
    new_product,
    new_user,
    product_key,
    register_partner_refusal,
    register_product_refusal,
    register_user_refusal,
    verification_refusal,
    StoreState,
};
use crate::order::{
    ascending,
    count_below,
    key_lt,
    lemma_count_below_at,
    lemma_key_lt_irreflexive,
    KeyOrder,
};
use crate::roles::{stage_to_status, UserRole};
use crate::search::{first_of, matching, query_limit, query_matches, search_results};
use crate::table::{
    lemma_count_below_splits,
    lemma_upsert,
    lemma_upsert_keeps_keys,
    upsert_keys,
};
use crate::types::{
    anonymous_identity,
    ProductSearchQueryView,
    PartnerRegistrationView,
    PartnerView,
    ProductRegistrationView,
    ProductView,
    SupplyChainEventInputView,
    SupplyChainEventView,
    UserRegistrationView,
    UserView,
};
use crate::utils::product_id_for;

verus! {

/// The empty registry is in a valid state.
pub proof fn lemma_empty_wf()
    ensures
        StoreState::empty().wf(),
{
}

/// Two product identifiers with the same key are the same identifier.
pub proof fn lemma_product_key_injective(a: Seq<char>, b: Seq<char>)
    requires
        product_key(a) == product_key(b),
    ensures
        a == b,
{
    vstd::utf8::encode_utf8_decode_utf8(a);
    vstd::utf8::encode_utf8_decode_utf8(b);
}

/// Storing a user leads from a valid state to a valid state, in which the
/// identities are those of before and the user's.
pub proof fn lemma_store_user_wf(s: StoreState, user: UserView)
    requires
        s.wf(),
    ensures
        s.store_user(user).wf(),
        s.store_user(user).user_keys() == upsert_keys(
            KeyOrder::LengthFirst,
            s.user_keys(),
            user.id,
        ),
{
    lemma_upsert(KeyOrder::LengthFirst, s.user_keys(), s.users, user.id, user);
    lemma_upsert_keeps_keys(
        KeyOrder::LengthFirst,
        s.user_keys(),
        s.users,
        user.id,
        user,
        |u: UserView| u.id,
    );
}

/// Storing a partner leads from a valid state to a valid state, in which the
/// partners' identities are those of before and the partner's.
pub proof fn lemma_store_partner_wf(s: StoreState, partner: PartnerView)
    requires
        s.wf(),
    ensures
        s.store_partner(partner).wf(),
        s.store_partner(partner).partner_keys() == upsert_keys(
            KeyOrder::LengthFirst,
            s.partner_keys(),
            partner.id,
        ),
{
    lemma_upsert(KeyOrder::LengthFirst, s.partner_keys(), s.partners, partner.id, partner);
    lemma_upsert_keeps_keys(
        KeyOrder::LengthFirst,
        s.partner_keys(),
        s.partners,
        partner.id,
        partner,
        |p: PartnerView| p.id,
    );
}

/// Storing a product with a ledger that fits it leads from a valid state to
/// a valid state, in which the identifiers are those of before and the
/// product's.
pub proof fn lemma_store_product_wf(
    s: StoreState,
    product: ProductView,
    ledger: Seq<SupplyChainEventView>,
)
    requires
        s.wf(),
        ledger_fits(product, ledger),
    ensures
        s.store_product(product, ledger).wf(),
        s.store_product(product, ledger).product_keys() == upsert_keys(
            KeyOrder::Lexicographic,
            s.product_keys(),
            product_key(product.id),
        ),
{
    let key = product_key(product.id);
    let keys = s.product_keys();
    let post = s.store_product(product, ledger);
    lemma_upsert(KeyOrder::Lexicographic, keys, s.products, key, product);
    lemma_upsert(KeyOrder::Lexicographic, keys, s.ledgers, key, ledger);
    lemma_upsert_keeps_keys(
        KeyOrder::Lexicographic,
        keys,
        s.products,
        key,
        product,
        |p: ProductView| product_key(p.id),
    );
    assert forall|i: int| 0 <= i < post.products.len() implies ledger_fits(
        #[trigger] post.products[i],
        post.ledgers[i],
    ) by {
        if keys.contains(key) {
            let at = keys.index_of(key);
            if i != at {
                assert(post.products[i] == s.products[i]);
                assert(post.ledgers[i] == s.ledgers[i]);
            }
        } else {
            lemma_count_below_splits(KeyOrder::Lexicographic, keys, key);
            let at = count_below(KeyOrder::Lexicographic, keys, key);
            if i < at {
                assert(post.products[i] == s.products[i]);
                assert(post.ledgers[i] == s.ledgers[i]);
            } else if i > at {
                assert(post.products[i] == s.products[i - 1]);
                assert(post.ledgers[i] == s.ledgers[i - 1]);
            }
        }
    }
}

/// In a valid state the product found under an identifier carries that
/// identifier, and a user or partner found under an identity carries that
/// identity.
pub proof fn lemma_records_carry_their_keys(s: StoreState)
    requires
        s.wf(),
    ensures
        forall|id: Seq<char>| #[trigger] s.has_product(id) ==> s.product(id).id == id,
        forall|id: Seq<u8>| #[trigger] s.has_user(id) ==> s.user(id).id == id,
        forall|id: Seq<u8>| #[trigger] s.has_partner(id) ==> s.partner(id).id == id,
{
    assert forall|id: Seq<char>| #[trigger] s.has_product(id) implies s.product(id).id == id by {
        let at = s.product_index(id);
        assert(s.product_keys()[at] == product_key(id));
        lemma_product_key_injective(s.products[at].id, id);
    }
    assert forall|id: Seq<u8>| #[trigger] s.has_user(id) implies s.user(id).id == id by {
        let at = s.user_keys().index_of(id);
        assert(s.user_keys()[at] == id);
    }
    assert forall|id: Seq<u8>| #[trigger] s.has_partner(id) implies s.partner(id).id == id by {
        let at = s.partner_keys().index_of(id);
        assert(s.partner_keys()[at] == id);
    }
}

/// In a valid state every product has a ledger that fits it.
pub proof fn lemma_ledger_fits(s: StoreState, id: Seq<char>)
    requires
        s.wf(),
        s.has_product(id),
    ensures
        ledger_fits(s.product(id), s.ledger(id)),
        s.product(id).id == id,
{
    let at = s.product_index(id);
    assert(s.product_keys()[at] == product_key(id));
    assert(ledger_fits(s.products[at], s.ledgers[at]));
    lemma_records_carry_their_keys(s);
}

/// Registering a user leads from a valid state to a valid state.
pub proof fn lemma_register_user_wf(
    s: StoreState,
    caller: Seq<u8>,
    data: UserRegistrationView,
    now: u64,
)
    requires
        s.wf(),
    ensures
        after_register_user(s, caller, data, now).wf(),
{
    lemma_store_user_wf(s, new_user(caller, data, now));
}

/// Setting a verification flag leads from a valid state to a valid state
/// with the same identities, each at its position.
pub proof fn lemma_update_user_verification_wf(
    s: StoreState,
    caller: Seq<u8>,
    target: Seq<u8>,
    verified: bool,
)
    requires
        s.wf(),
    ensures
        after_update_user_verification(s, caller, target, verified).wf(),
        after_update_user_verification(s, caller, target, verified).user_keys() == s.user_keys(),
{
    if verification_refusal(s, caller, target) is None {
        lemma_records_carry_their_keys(s);
        lemma_store_user_wf(s, UserView { is_verified: verified, ..s.user(target) });
    }
}

/// Registering a product leads from a valid state to a valid state.
pub proof fn lemma_register_product_wf(
    s: StoreState,
    caller: Seq<u8>,
    data: ProductRegistrationView,
    now: u64,
)
    requires
        s.wf(),
    ensures
        after_register_product(s, caller, data, now).wf(),
{
    if register_product_refusal(s, caller) is None {
        let product = new_product(s.user(caller), data, now);
        let event = initial_event(s.user(caller), data, now);
        assert(ledger_fits(product, seq![event]));
        lemma_store_product_wf(s, product, seq![event]);
    }
}

/// The ledger of a product stays a ledger that fits the product when an
/// event for the product is appended and the product moves with it.
pub proof fn lemma_moved_product_fits(
    product: ProductView,
    ledger: Seq<SupplyChainEventView>,
    event: SupplyChainEventView,
    now: u64,
)
    requires
        ledger_fits(product, ledger),
        event.product_id == product.id,
    ensures
        ledger_fits(moved_product(product, event.stage, event.location, now), ledger.push(event)),
{
    let longer = ledger.push(event);
    assert forall|j: int| 0 <= j < longer.len() implies (#[trigger] longer[j]).product_id
        == product.id by {
        if j < ledger.len() {
            assert(longer[j] == ledger[j]);
        }
    }
}

/// Recording an event leads from a valid state to a valid state with the same
/// product identifiers, each at its position.
pub proof fn lemma_add_event_wf(
    s: StoreState,
    caller: Seq<u8>,
    input: SupplyChainEventInputView,
    now: u64,
)
    requires
        s.wf(),
    ensures
        after_add_event(s, caller, input, now).wf(),
        after_add_event(s, caller, input, now).product_keys() == s.product_keys(),
{
    if add_event_refusal(s, caller, input) is None {
        let id = input.product_id;
        let event = new_event(s.user(caller), input, now);
        lemma_ledger_fits(s, id);
        lemma_moved_product_fits(s.product(id), s.ledger(id), event, now);
        lemma_store_product_wf(
            s,
            moved_product(s.product(id), input.stage, input.location, now),
            s.ledger(id).push(event),
        );
    }
}

/// Registering a partner leads from a valid state to a valid state.
pub proof fn lemma_register_partner_wf(
    s: StoreState,
    caller: Seq<u8>,
    data: PartnerRegistrationView,
    now: u64,
)
    requires
        s.wf(),
    ensures
        after_register_partner(s, caller, data, now).wf(),
{
    lemma_store_partner_wf(s, new_partner(caller, data, now));
}

/// In a valid state every product has a ledger that is not empty, and the
/// status and the location of the product are those that follow from the
/// last event of that ledger.
pub proof fn lemma_status_follows_ledger(s: StoreState, id: Seq<char>)
    requires
        s.wf(),
        s.has_product(id),
    ensures
        s.ledger(id).len() > 0,
        s.product(id).current_status == stage_to_status(s.ledger(id).last().stage),
        s.product(id).current_location == s.ledger(id).last().location,
{
    let at = s.product_index(id);
    assert(s.product_keys()[at] == product_key(id));
    assert(ledger_fits(s.products[at], s.ledgers[at]));
}

/// Every operation leads from a valid state to a valid state.
pub proof fn lemma_apply_wf(s: StoreState, operation: Operation)
    requires
        s.wf(),
    ensures
        apply(s, operation).wf(),
{
    match operation {
        Operation::RegisterUser { caller, user, now } => {
            lemma_register_user_wf(s, caller, user, now);
        },
        Operation::UpdateUserVerification { caller, target, verified } => {
            lemma_update_user_verification_wf(s, caller, target, verified);
        },
        Operation::RegisterProduct { caller, product, now } => {
            lemma_register_product_wf(s, caller, product, now);
        },
        Operation::AddEvent { caller, input, now } => {
            lemma_add_event_wf(s, caller, input, now);
        },
        Operation::RegisterPartner { caller, partner, now } => {
            lemma_register_partner_wf(s, caller, partner, now);
        },
    }
}

/// A refused operation changes nothing.
pub proof fn lemma_refused_changes_nothing(s: StoreState, operation: Operation)
    requires
        refusal_of(s, operation) is Some,
    ensures
        apply(s, operation) == s,
{
}

/// Any sequence of operations leads from a valid state to a valid state.
pub proof fn lemma_run_wf(s: StoreState, operations: Seq<Operation>)
    requires
        s.wf(),
    ensures
        run(s, operations).wf(),
    decreases operations.len(),
{
    if operations.len() > 0 {
        lemma_run_wf(s, operations.drop_last());
        lemma_apply_wf(run(s, operations.drop_last()), operations.last());
    }
}

/// After any sequence of operations on an empty registry, every product has
/// the status that the stage of the last event of its ledger implies, and
/// that event's location.
pub proof fn lemma_status_after_any_operations(operations: Seq<Operation>, id: Seq<char>)
    requires
        run(StoreState::empty(), operations).has_product(id),
    ensures
        run(StoreState::empty(), operations).ledger(id).len() > 0,
        run(StoreState::empty(), operations).product(id).current_status == stage_to_status(
            run(StoreState::empty(), operations).ledger(id).last().stage,
        ),
        run(StoreState::empty(), operations).product(id).current_location == run(
            StoreState::empty(),
            operations,
        ).ledger(id).last().location,
{
    lemma_empty_wf();
    lemma_run_wf(StoreState::empty(), operations);
    lemma_status_follows_ledger(run(StoreState::empty(), operations), id);
}

/// After a product was stored with a ledger that fits it, it is found under
/// its identifier with that ledger; what is found under every other
/// identifier is as before.
pub proof fn lemma_store_product_effect(
    s: StoreState,
    product: ProductView,
    ledger: Seq<SupplyChainEventView>,
)
    requires
        s.wf(),
        ledger_fits(product, ledger),
    ensures
        s.store_product(product, ledger).has_product(product.id),
        s.store_product(product, ledger).product(product.id) == product,
        s.store_product(product, ledger).ledger(product.id) == ledger,
        forall|id: Seq<char>|
            id != product.id ==> s.store_product(product, ledger).has_product(id)
                == #[trigger] s.has_product(id),
        forall|id: Seq<char>|
            id != product.id && #[trigger] s.has_product(id) ==> s.store_product(
                product,
                ledger,
            ).product(id) == s.product(id) && s.store_product(product, ledger).ledger(id)
                == s.ledger(id),
{
    let post = s.store_product(product, ledger);
    let key = product_key(product.id);
    let keys = s.product_keys();
    lemma_store_product_wf(s, product, ledger);
    lemma_upsert(KeyOrder::Lexicographic, keys, s.products, key, product);
    lemma_upsert(KeyOrder::Lexicographic, keys, s.ledgers, key, ledger);
    assert forall|id: Seq<char>| id != product.id implies post.has_product(id)
        == #[trigger] s.has_product(id) by {
        if product_key(id) == key {
            lemma_product_key_injective(id, product.id);
        }
        assert(upsert_keys(KeyOrder::Lexicographic, keys, key).contains(product_key(id))
            <==> keys.contains(product_key(id)));
    }
    assert forall|id: Seq<char>| id != product.id && #[trigger] s.has_product(id) implies post.product(
        id,
    ) == s.product(id) && post.ledger(id) == s.ledger(id) by {
        if product_key(id) == key {
            lemma_product_key_injective(id, product.id);
        }
    }
}

/// After a user was stored, it is found under its identity; who is found
/// under every other identity is as before.
pub proof fn lemma_store_user_effect(s: StoreState, user: UserView)
    requires
        s.wf(),
    ensures
        s.store_user(user).has_user(user.id),
        s.store_user(user).user(user.id) == user,
        forall|id: Seq<u8>|
            id != user.id ==> s.store_user(user).has_user(id) == #[trigger] s.has_user(id),
        forall|id: Seq<u8>|
            id != user.id && #[trigger] s.has_user(id) ==> s.store_user(user).user(id) == s.user(
                id,
            ),
{
    let keys = s.user_keys();
    lemma_store_user_wf(s, user);
    lemma_upsert(KeyOrder::LengthFirst, keys, s.users, user.id, user);
    assert forall|id: Seq<u8>| id != user.id implies s.store_user(user).has_user(id)
        == #[trigger] s.has_user(id) by {
        assert(upsert_keys(KeyOrder::LengthFirst, keys, user.id).contains(id) <==> keys.contains(
            id,
        ));
    }
    assert forall|id: Seq<u8>| id != user.id && #[trigger] s.has_user(id) implies s.store_user(
        user,
    ).user(id) == s.user(id) by {
    }
}

/// After a partner was stored, it is found under its identity; who is found
/// under every other identity is as before.
pub proof fn lemma_store_partner_effect(s: StoreState, partner: PartnerView)
    requires
        s.wf(),
    ensures
        s.store_partner(partner).has_partner(partner.id),
        s.store_partner(partner).partner(partner.id) == partner,
        forall|id: Seq<u8>|
            id != partner.id ==> s.store_partner(partner).has_partner(id)
                == #[trigger] s.has_partner(id),
        forall|id: Seq<u8>|
            id != partner.id && #[trigger] s.has_partner(id) ==> s.store_partner(partner).partner(
                id,
            ) == s.partner(id),
{
    let keys = s.partner_keys();
    lemma_store_partner_wf(s, partner);
    lemma_upsert(KeyOrder::LengthFirst, keys, s.partners, partner.id, partner);
    assert forall|id: Seq<u8>| id != partner.id implies s.store_partner(partner).has_partner(id)
        == #[trigger] s.has_partner(id) by {
        assert(upsert_keys(KeyOrder::LengthFirst, keys, partner.id).contains(id)
            <==> keys.contains(id));
    }
    assert forall|id: Seq<u8>| id != partner.id && #[trigger] s.has_partner(id) implies s.store_partner(
        partner,
    ).partner(id) == s.partner(id) by {
    }
}

/// A registered user is found under the caller's identity with the record
/// made from what the caller stated; every other user is as before, and so
/// are the products, ledgers and partners.
pub proof fn lemma_register_user_effect(
    s: StoreState,
    caller: Seq<u8>,
    data: UserRegistrationView,
    now: u64,
)
    requires
        s.wf(),
        register_user_refusal(caller) is None,
    ensures
        after_register_user(s, caller, data, now).has_user(caller),
        after_register_user(s, caller, data, now).user(caller) == new_user(caller, data, now),
        forall|id: Seq<u8>|
            id != caller ==> after_register_user(s, caller, data, now).has_user(id)
                == #[trigger] s.has_user(id),
        forall|id: Seq<u8>|
            id != caller && #[trigger] s.has_user(id) ==> after_register_user(
                s,
                caller,
                data,
                now,
            ).user(id) == s.user(id),
        after_register_user(s, caller, data, now).products == s.products,
        after_register_user(s, caller, data, now).ledgers == s.ledgers,
        after_register_user(s, caller, data, now).partners == s.partners,
{
    lemma_store_user_effect(s, new_user(caller, data, now));
}

/// After the verification flag of a user was set, the user's record has the
/// flag and is otherwise as before; every other user is as before, and so
/// are the products, ledgers and partners.
pub proof fn lemma_update_user_verification_effect(
    s: StoreState,
    caller: Seq<u8>,
    target: Seq<u8>,
    verified: bool,
)
    requires
        s.wf(),
        verification_refusal(s, caller, target) is None,
    ensures
        after_update_user_verification(s, caller, target, verified).has_user(target),
        after_update_user_verification(s, caller, target, verified).user(target) == (UserView {
            is_verified: verified,
            ..s.user(target)
        }),
        forall|id: Seq<u8>|
            after_update_user_verification(s, caller, target, verified).has_user(id)
                == #[trigger] s.has_user(id),
        forall|id: Seq<u8>|
            id != target && #[trigger] s.has_user(id) ==> after_update_user_verification(
                s,
                caller,
                target,
                verified,
            ).user(id) == s.user(id),
        after_update_user_verification(s, caller, target, verified).products == s.products,
        after_update_user_verification(s, caller, target, verified).ledgers == s.ledgers,
        after_update_user_verification(s, caller, target, verified).partners == s.partners,
{
    lemma_records_carry_their_keys(s);
    lemma_store_user_effect(s, UserView { is_verified: verified, ..s.user(target) });
}

/// A recorded event is the last of its product's ledger, which is otherwise
/// as before, and the product has the status that the event's stage implies
/// and the event's location. Every other product and ledger, every user and
/// every partner is as before.
pub proof fn lemma_add_event_effect(
    s: StoreState,
    caller: Seq<u8>,
    input: SupplyChainEventInputView,
    now: u64,
)
    requires
        s.wf(),
        add_event_refusal(s, caller, input) is None,
    ensures
        after_add_event(s, caller, input, now).has_product(input.product_id),
        after_add_event(s, caller, input, now).ledger(input.product_id) == s.ledger(
            input.product_id,
        ).push(new_event(s.user(caller), input, now)),
        after_add_event(s, caller, input, now).ledger(input.product_id).len() == s.ledger(
            input.product_id,
        ).len() + 1,
        after_add_event(s, caller, input, now).product(input.product_id) == moved_product(
            s.product(input.product_id),
            input.stage,
            input.location,
            now,
        ),
        after_add_event(s, caller, input, now).product(input.product_id).current_status
            == stage_to_status(input.stage),
        after_add_event(s, caller, input, now).product(input.product_id).current_location
            == input.location,
        forall|id: Seq<char>|
            after_add_event(s, caller, input, now).has_product(id) == #[trigger] s.has_product(id),
        forall|id: Seq<char>|
            id != input.product_id && #[trigger] s.has_product(id) ==> after_add_event(
                s,
                caller,
                input,
                now,
            ).product(id) == s.product(id) && after_add_event(s, caller, input, now).ledger(id)
                == s.ledger(id),
        after_add_event(s, caller, input, now).users == s.users,
        after_add_event(s, caller, input, now).partners == s.partners,
{
    let id = input.product_id;
    let event = new_event(s.user(caller), input, now);
    lemma_ledger_fits(s, id);
    lemma_moved_product_fits(s.product(id), s.ledger(id), event, now);
    lemma_store_product_effect(
        s,
        moved_product(s.product(id), input.stage, input.location, now),
        s.ledger(id).push(event),
    );
}

/// A registered product is in the registry under its new identifier with a
/// ledger of exactly one event, the completed sourcing event. Every product
/// under another identifier is as before, with its ledger; every user and
/// every partner is as before.
pub proof fn lemma_register_product_effect(
    s: StoreState,
    caller: Seq<u8>,
    data: ProductRegistrationView,
    now: u64,
)
    requires
        s.wf(),
        register_product_refusal(s, caller) is None,
    ensures
        after_register_product(s, caller, data, now).has_product(product_id_for(data.category, now)),
        after_register_product(s, caller, data, now).product(product_id_for(data.category, now))
            == new_product(s.user(caller), data, now),
        after_register_product(s, caller, data, now).ledger(product_id_for(data.category, now))
            == seq![initial_event(s.user(caller), data, now)],
        after_register_product(s, caller, data, now).ledger(
            product_id_for(data.category, now),
        ).len() == 1,
        forall|id: Seq<char>|
            id != product_id_for(data.category, now) ==> after_register_product(
                s,
                caller,
                data,
                now,
            ).has_product(id) == #[trigger] s.has_product(id),
        forall|id: Seq<char>|
            id != product_id_for(data.category, now) && #[trigger] s.has_product(id)
                ==> after_register_product(s, caller, data, now).product(id) == s.product(id)
                && after_register_product(s, caller, data, now).ledger(id) == s.ledger(id),
        after_register_product(s, caller, data, now).users == s.users,
        after_register_product(s, caller, data, now).partners == s.partners,
{
    let product = new_product(s.user(caller), data, now);
    let event = initial_event(s.user(caller), data, now);
    assert(ledger_fits(product, seq![event]));
    lemma_store_product_effect(s, product, seq![event]);
}

/// A registered partner is found under the caller's identity, unverified and
/// with a reputation of 0; every other partner is as before, and so are the
/// users, products and ledgers.
pub proof fn lemma_register_partner_effect(
    s: StoreState,
    caller: Seq<u8>,
    data: PartnerRegistrationView,
    now: u64,
)
    requires
        s.wf(),
        register_partner_refusal(s, caller) is None,
    ensures
        after_register_partner(s, caller, data, now).has_partner(caller),
        after_register_partner(s, caller, data, now).partner(caller) == new_partner(
            caller,
            data,
            now,
        ),
        !after_register_partner(s, caller, data, now).partner(caller).verified,
        after_register_partner(s, caller, data, now).partner(caller).reputation_score == 0,
        forall|id: Seq<u8>|
            id != caller ==> after_register_partner(s, caller, data, now).has_partner(id)
                == #[trigger] s.has_partner(id),
        forall|id: Seq<u8>|
            id != caller && #[trigger] s.has_partner(id) ==> after_register_partner(
                s,
                caller,
                data,
                now,
            ).partner(id) == s.partner(id),
        after_register_partner(s, caller, data, now).users == s.users,
        after_register_partner(s, caller, data, now).products == s.products,
        after_register_partner(s, caller, data, now).ledgers == s.ledgers,
{
    lemma_store_partner_effect(s, new_partner(caller, data, now));
}

/// No operation deletes a record: who or what is registered before an
/// operation is registered after it.
pub proof fn lemma_nothing_is_deleted(s: StoreState, operation: Operation)
    requires
        s.wf(),
    ensures
        forall|id: Seq<u8>| #[trigger] s.has_user(id) ==> apply(s, operation).has_user(id),
        forall|id: Seq<char>| #[trigger] s.has_product(id) ==> apply(s, operation).has_product(id),
        forall|id: Seq<u8>| #[trigger] s.has_partner(id) ==> apply(s, operation).has_partner(id),
{
    if refusal_of(s, operation) is None {
        match operation {
            Operation::RegisterUser { caller, user, now } => {
                lemma_register_user_effect(s, caller, user, now);
            },
            Operation::UpdateUserVerification { caller, target, verified } => {
                lemma_update_user_verification_effect(s, caller, target, verified);
            },
            Operation::RegisterProduct { caller, product, now } => {
                lemma_register_product_effect(s, caller, product, now);
            },
            Operation::AddEvent { caller, input, now } => {
                lemma_add_event_effect(s, caller, input, now);
            },
            Operation::RegisterPartner { caller, partner, now } => {
                lemma_register_partner_effect(s, caller, partner, now);
            },
        }
    }
}

/// No operation shortens or reorders a ledger or removes a product, but for
/// the registration of a product under an identifier that is in use.
pub proof fn lemma_ledgers_only_grow(s: StoreState, operation: Operation)
    requires
        s.wf(),
        !reuses_identifier(s, operation),
    ensures
        ledgers_extend(s, apply(s, operation)),
{
    let post = apply(s, operation);
    assert forall|id: Seq<char>| #[trigger] s.has_product(id) implies post.has_product(id)
        && is_prefix(s.ledger(id), post.ledger(id)) by {
        let ledger = s.ledger(id);
        assert(ledger.take(ledger.len() as int) =~= ledger);
        if refusal_of(s, operation) is None {
            match operation {
                Operation::RegisterProduct { caller, product, now } => {
                    lemma_register_product_effect(s, caller, product, now);
                },
                Operation::AddEvent { caller, input, now } => {
                    lemma_add_event_effect(s, caller, input, now);
                    if id == input.product_id {
                        assert(post.ledger(id).take(ledger.len() as int) =~= ledger);
                    }
                },
                _ => {},
            }
        }
    }
}

/// Over any sequence of operations no ledger is shortened or reordered and
/// no product is removed, as long as no product is registered under an
/// identifier that is in use.
pub proof fn lemma_run_ledgers_only_grow(s: StoreState, operations: Seq<Operation>)
    requires
        s.wf(),
        never_reuses_identifier(s, operations),
    ensures
        ledgers_extend(s, run(s, operations)),
    decreases operations.len(),
{
    let last = run(s, operations);
    if operations.len() == 0 {
        assert forall|id: Seq<char>| #[trigger] s.has_product(id) implies is_prefix(
            s.ledger(id),
            s.ledger(id),
        ) by {
            assert(s.ledger(id).take(s.ledger(id).len() as int) =~= s.ledger(id));
        }
    } else {
        let middle = run(s, operations.drop_last());
        lemma_run_ledgers_only_grow(s, operations.drop_last());
        lemma_run_wf(s, operations.drop_last());
        lemma_ledgers_only_grow(middle, operations.last());
        assert forall|id: Seq<char>| #[trigger] s.has_product(id) implies last.has_product(id)
            && is_prefix(s.ledger(id), last.ledger(id)) by {
            assert(middle.has_product(id));
            let a = s.ledger(id);
            let b = middle.ledger(id);
            let c = last.ledger(id);
            assert(c.take(a.len() as int) =~= b.take(a.len() as int));
        }
    }
}

/// Storing users leads from a valid state to a valid state.
pub proof fn lemma_with_users_wf(s: StoreState, users: Seq<UserView>)
    requires
        s.wf(),
    ensures
        with_users(s, users).wf(),
        with_users(s, users).products == s.products,
        with_users(s, users).ledgers == s.ledgers,
        with_users(s, users).partners == s.partners,
    decreases users.len(),
{
    if users.len() > 0 {
        lemma_with_users_wf(s, users.drop_last());
        lemma_store_user_wf(with_users(s, users.drop_last()), users.last());
    }
}

/// Storing partners leads from a valid state to a valid state.
pub proof fn lemma_with_partners_wf(s: StoreState, partners: Seq<PartnerView>)
    requires
        s.wf(),
    ensures
        with_partners(s, partners).wf(),
        with_partners(s, partners).users == s.users,
        with_partners(s, partners).products == s.products,
        with_partners(s, partners).ledgers == s.ledgers,
    decreases partners.len(),
{
    if partners.len() > 0 {
        lemma_with_partners_wf(s, partners.drop_last());
        lemma_store_partner_wf(with_partners(s, partners.drop_last()), partners.last());
    }
}

/// Storing products with ledgers that fit them leads from a valid state to
/// a valid state.
pub proof fn lemma_with_products_wf(
    s: StoreState,
    products: Seq<ProductView>,
    ledgers: Seq<Seq<SupplyChainEventView>>,
)
    requires
        s.wf(),
        restorable(products, ledgers),
    ensures
        with_products(s, products, ledgers).wf(),
        with_products(s, products, ledgers).users == s.users,
        with_products(s, products, ledgers).partners == s.partners,
    decreases products.len(),
{
    if products.len() > 0 {
        let front = products.drop_last();
        let front_ledgers = ledgers.drop_last();
        assert forall|i: int| 0 <= i < front.len() implies ledger_fits(
            #[trigger] front[i],
            front_ledgers[i],
        ) by {
            assert(front[i] == products[i]);
            assert(ledger_fits(products[i], ledgers[i]));
        }
        lemma_with_products_wf(s, front, front_ledgers);
        assert(ledger_fits(products[products.len() - 1], ledgers[products.len() - 1]));
        lemma_store_product_wf(with_products(s, front, front_ledgers), products.last(), ledgers.last());
    }
}

/// A registry rebuilt from records of which every ledger fits its product
/// is in a valid state.
pub proof fn lemma_restored_wf(
    users: Seq<UserView>,
    products: Seq<ProductView>,
    ledgers: Seq<Seq<SupplyChainEventView>>,
    partners: Seq<PartnerView>,
)
    requires
        restorable(products, ledgers),
    ensures
        restored(users, products, ledgers, partners).wf(),
{
    lemma_with_users_wf(StoreState::empty(), users);
    lemma_with_products_wf(with_users(StoreState::empty(), users), products, ledgers);
    lemma_with_partners_wf(
        with_products(with_users(StoreState::empty(), users), products, ledgers),
        partners,
    );
}

/// Rebuilding a registry from the records of a valid state, in their order,
/// gives that state.
pub proof fn lemma_restored_is_the_same(s: StoreState)
    requires
        s.wf(),
    ensures
        restorable(s.products, s.ledgers),
        restored(s.users, s.products, s.ledgers, s.partners) == s,
{
    lemma_with_users_ascending(s.users, s.users.len() as int);
    assert(s.users.take(s.users.len() as int) =~= s.users);
    let first = with_users(StoreState::empty(), s.users);
    lemma_with_products_ascending(first, s.products, s.ledgers, s.products.len() as int);
    assert(s.products.take(s.products.len() as int) =~= s.products);
    assert(s.ledgers.take(s.products.len() as int) =~= s.ledgers);
    let second = with_products(first, s.products, s.ledgers);
    lemma_with_partners_ascending(second, s.partners, s.partners.len() as int);
    assert(s.partners.take(s.partners.len() as int) =~= s.partners);
}

/// A key that comes after all of ascending keys is absent from them and
/// belongs behind them.
proof fn lemma_count_below_all(order: KeyOrder, keys: Seq<Seq<u8>>, key: Seq<u8>)
    requires
        forall|j: int| 0 <= j < keys.len() ==> key_lt(order, #[trigger] keys[j], key),
    ensures
        !keys.contains(key),
        count_below(order, keys, key) == keys.len(),
{
    lemma_key_lt_irreflexive(order, key);
    lemma_count_below_at(order, keys, key, keys.len() as int);
}

/// Storing the first `n` of users that ascend, in a registry without users,
/// gives those users in their order.
proof fn lemma_with_users_ascending(users: Seq<UserView>, n: int)
    requires
        0 <= n <= users.len(),
        ascending(KeyOrder::LengthFirst, users.map_values(|u: UserView| u.id)),
    ensures
        with_users(StoreState::empty(), users.take(n)) == (StoreState {
            users: users.take(n),
            ..StoreState::empty()
        }),
    decreases n,
{
    if n > 0 {
        lemma_with_users_ascending(users, n - 1);
        let part = users.take(n);
        assert(part.drop_last() =~= users.take(n - 1));
        let t = with_users(StoreState::empty(), users.take(n - 1));
        let keys = t.user_keys();
        let all_keys = users.map_values(|u: UserView| u.id);
        assert forall|j: int| 0 <= j < keys.len() implies key_lt(
            KeyOrder::LengthFirst,
            #[trigger] keys[j],
            part.last().id,
        ) by {
            assert(keys[j] == all_keys[j]);
            assert(part.last().id == all_keys[n - 1]);
        }
        lemma_count_below_all(KeyOrder::LengthFirst, keys, part.last().id);
        assert(t.store_user(part.last()).users =~= part);
    } else {
        assert(users.take(0) =~= Seq::empty());
    }
}

/// Storing the first `n` of partners that ascend, in a registry without
/// partners, gives those partners in their order.
proof fn lemma_with_partners_ascending(s: StoreState, partners: Seq<PartnerView>, n: int)
    requires
        0 <= n <= partners.len(),
        s.partners.len() == 0,
        ascending(KeyOrder::LengthFirst, partners.map_values(|p: PartnerView| p.id)),
    ensures
        with_partners(s, partners.take(n)) == (StoreState { partners: partners.take(n), ..s }),
    decreases n,
{
    if n > 0 {
        lemma_with_partners_ascending(s, partners, n - 1);
        let part = partners.take(n);
        assert(part.drop_last() =~= partners.take(n - 1));
        let t = with_partners(s, partners.take(n - 1));
        let keys = t.partner_keys();
        let all_keys = partners.map_values(|p: PartnerView| p.id);
        assert forall|j: int| 0 <= j < keys.len() implies key_lt(
            KeyOrder::LengthFirst,
            #[trigger] keys[j],
            part.last().id,
        ) by {
            assert(keys[j] == all_keys[j]);
            assert(part.last().id == all_keys[n - 1]);
        }
        lemma_count_below_all(KeyOrder::LengthFirst, keys, part.last().id);
        assert(t.store_partner(part.last()).partners =~= part);
    } else {
        assert(partners.take(0) =~= Seq::empty());
        assert(s.partners =~= Seq::empty());
    }
}

/// Storing the first `n` of products that ascend, with their ledgers, in a
/// registry without products, gives those products and ledgers in their
/// order.
proof fn lemma_with_products_ascending(
    s: StoreState,
    products: Seq<ProductView>,
    ledgers: Seq<Seq<SupplyChainEventView>>,
    n: int,
)
    requires
        0 <= n <= products.len(),
        products.len() == ledgers.len(),
        s.products.len() == 0,
        s.ledgers.len() == 0,
        ascending(
            KeyOrder::Lexicographic,
            products.map_values(|p: ProductView| product_key(p.id)),
        ),
    ensures
        with_products(s, products.take(n), ledgers.take(n)) == (StoreState {
            products: products.take(n),
            ledgers: ledgers.take(n),
            ..s
        }),
    decreases n,
{
    if n > 0 {
        lemma_with_products_ascending(s, products, ledgers, n - 1);
        let part = products.take(n);
        let part_ledgers = ledgers.take(n);
        assert(part.drop_last() =~= products.take(n - 1));
        assert(part_ledgers.drop_last() =~= ledgers.take(n - 1));
        let t = with_products(s, products.take(n - 1), ledgers.take(n - 1));
        let keys = t.product_keys();
        let all_keys = products.map_values(|p: ProductView| product_key(p.id));
        let key = product_key(part.last().id);
        assert forall|j: int| 0 <= j < keys.len() implies key_lt(
            KeyOrder::Lexicographic,
            #[trigger] keys[j],
            key,
        ) by {
            assert(keys[j] == all_keys[j]);
            assert(key == all_keys[n - 1]);
        }
        lemma_count_below_all(KeyOrder::Lexicographic, keys, key);
        assert(t.store_product(part.last(), part_ledgers.last()).products =~= part);
        assert(t.store_product(part.last(), part_ledgers.last()).ledgers =~= part_ledgers);
    } else {
        assert(products.take(0) =~= Seq::empty());
        assert(ledgers.take(0) =~= Seq::empty());
        assert(s.products =~= Seq::empty());
        assert(s.ledgers =~= Seq::empty());
    }
}

/// A caller that never registered is refused every write operation, for
/// want of a user record.
pub proof fn lemma_unregistered_caller_refused(s: StoreState, operation: Operation)
    requires
        match operation {
            Operation::RegisterUser { caller, user, now } => false,
            Operation::UpdateUserVerification { caller, target, verified } => !s.has_user(caller),
            Operation::RegisterProduct { caller, product, now } => !s.has_user(caller),
            Operation::AddEvent { caller, input, now } => !s.has_user(caller),
            Operation::RegisterPartner { caller, partner, now } => !s.has_user(caller),
        },
    ensures
        refusal_of(s, operation) == Some(StoreError::UserNotFound),
        StoreError::UserNotFound.kind() == ErrorKind::NotFound,
        apply(s, operation) == s,
{
}

/// A caller that registered as a consumer is refused the registration of a
/// product, for want of the capability.
pub proof fn lemma_consumer_cannot_register_products(
    s: StoreState,
    caller: Seq<u8>,
    data: UserRegistrationView,
    now: u64,
)
    requires
        s.wf(),
        caller != anonymous_identity(),
        data.role == UserRole::Consumer,
    ensures
        register_product_refusal(after_register_user(s, caller, data, now), caller) == Some(
            StoreError::CannotRegisterProducts,
        ),
        StoreError::CannotRegisterProducts.kind() == ErrorKind::Unauthorized,
{
    lemma_register_user_effect(s, caller, data, now);
}

/// Appending an event to a ledger adds one to the number of events that
/// carry a certification if the event carries one, and nothing otherwise; so
/// that number never falls when an event is recorded.
pub proof fn lemma_certified_events_push(
    ledger: Seq<SupplyChainEventView>,
    event: SupplyChainEventView,
)
    ensures
        certified_events(ledger.push(event)) == certified_events(ledger) + if event.certifications.len()
            > 0 {
            1nat
        } else {
            0nat
        },
        certified_events(ledger.push(event)) >= certified_events(ledger),
{
    assert(ledger.push(event).drop_last() =~= ledger);
}

/// A search returns no more products than the query's limit, which is 50
/// where the query states none, and every product it returns passes every
/// filter of the query.
pub proof fn lemma_search_results(products: Seq<ProductView>, query: ProductSearchQueryView)
    ensures
        search_results(products, query).len() <= query_limit(query),
        query.limit is None ==> search_results(products, query).len() <= 50,
        search_results(products, query).len() <= products.len(),
        forall|i: int|
            0 <= i < search_results(products, query).len() ==> query_matches(
                query,
                #[trigger] search_results(products, query)[i],
            ),
{
    lemma_matching(products, query);
}

/// The matches among products are no more than the products, and each of
/// them passes every filter of the query.
proof fn lemma_matching(products: Seq<ProductView>, query: ProductSearchQueryView)
    ensures
        matching(products, query).len() <= products.len(),
        forall|i: int|
            0 <= i < matching(products, query).len() ==> query_matches(
                query,
                #[trigger] matching(products, query)[i],
            ),
    decreases products.len(),
{
    if products.len() > 0 {
        lemma_matching(products.drop_last(), query);
    }
}

/// A query without filters is passed by every product.
pub proof fn lemma_no_filter_matches_all(products: Seq<ProductView>, query: ProductSearchQueryView)
    requires
        query.name is None,
        query.category is None,
        query.manufacturer is None,
        query.status is None,
    ensures
        matching(products, query) == products,
        search_results(products, query) == first_of(products, query_limit(query)),
    decreases products.len(),
{
    if products.len() > 0 {
        lemma_no_filter_matches_all(products.drop_last(), query);
        assert(products.drop_last().push(products.last()) =~= products);
    }
}

} // verus!
