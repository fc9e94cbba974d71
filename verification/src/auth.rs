//! Authorization: who may invoke staff commands.
//!
//! A command is allowed only for an identity holding at least one of the
//! two designated roles in the home community. The membership checks
//! themselves are network calls made by the caller; this module fixes
//! the decision rule, which fails closed: a check that could not be
//! completed never grants access.

use vstd::prelude::*;

verus! {

/// The home community whose roles grant command access.
pub const LT_SERVER_GUILD_ID: u64 = 813469320680177715;

/// The organizer role.
pub const LT_SERVER_ORGANIZER_ROLE_ID: u64 = 813469405077831710;

/// The operator role.
pub const LT_SERVER_OPERATOR_ROLE_ID: u64 = 813469837711900742;

/// The decision rule over the two role checks. `None` stands for a check
/// that failed (a transient network error): the identity is then not
/// authorized, and a failed organizer check also blocks the operator
/// shortcut, exactly as evaluating the checks in order does.
pub open spec fn spec_can_invoke(organizer: Option<bool>, operator: Option<bool>) -> bool {
    organizer == Some(true) || (organizer == Some(false) && operator == Some(true))
}

/// Decides whether an identity with the given role-check results may
/// invoke commands.
pub fn can_invoke_command(organizer: Option<bool>, operator: Option<bool>) -> (r: bool)
    ensures
        r == spec_can_invoke(organizer, operator),
{
    match organizer {
        Some(true) => true,
        Some(false) => operator == Some(true),
        None => false,
    }
}

} // verus!
