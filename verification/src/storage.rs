//! The permission matrix: which capabilities a role starts with.

use vstd::prelude::*;
use crate::roles::{UserPermissions, UserRole};

verus! {

/// The capability set of `role`.
pub open spec fn permissions_for(role: UserRole) -> UserPermissions {
    UserPermissions {
        can_register_products: role == UserRole::Manufacturer || role
            == UserRole::SupplyChainManager || role == UserRole::Admin,
        can_update_supply_chain: role != UserRole::Consumer,
        can_manage_partners: role == UserRole::SupplyChainManager || role == UserRole::Admin,
        can_view_analytics: role != UserRole::Consumer,
        can_verify_users: role == UserRole::Admin,
    }
}

/// Looks up the capabilities a user of `role` is registered with.
pub fn get_default_permissions(role: &UserRole) -> (permissions: UserPermissions)
    ensures
        permissions == permissions_for(*role),
{
    match role {
        UserRole::Manufacturer => UserPermissions {
            can_register_products: true,
            can_update_supply_chain: true,
            can_manage_partners: false,
            can_view_analytics: true,
            can_verify_users: false,
        },
        UserRole::LogisticsProvider | UserRole::Retailer | UserRole::QualityAssurance => {
            UserPermissions {
                can_register_products: false,
                can_update_supply_chain: true,
                can_manage_partners: false,
                can_view_analytics: true,
                can_verify_users: false,
            }
        },
        UserRole::SupplyChainManager => UserPermissions {
            can_register_products: true,
            can_update_supply_chain: true,
            can_manage_partners: true,
            can_view_analytics: true,
            can_verify_users: false,
        },
        UserRole::Admin => UserPermissions {
            can_register_products: true,
            can_update_supply_chain: true,
            can_manage_partners: true,
            can_view_analytics: true,
            can_verify_users: true,
        },
        UserRole::Consumer => UserPermissions {
            can_register_products: false,
            can_update_supply_chain: false,
            can_manage_partners: false,
            can_view_analytics: false,
            can_verify_users: false,
        },
    }
}

} // verus!
