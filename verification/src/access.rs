//! Who may run the elder-only commands.

use vstd::prelude::*;

verus! {

/// Whether `role` is among `roles`.
pub fn has_role(roles: &Vec<u64>, role: u64) -> (found: bool)
    ensures
        found == roles@.contains(role),
{
    let n = roles.len();
    let mut i: usize = 0;
    while i < n
        invariant
            n == roles@.len(),
            i <= n,
            forall|k: int| 0 <= k < i ==> roles@[k] != role,
        decreases n - i,
    {
        if roles[i] == role {
            assert(roles@[i as int] == role);
            return true;
        }
        i = i + 1;
    }
    false
}

/// Whether the caller counts as an elder: `member_roles` are the caller's roles
/// in the server the command came from, or `None` outside a server.
pub fn is_elder(member_roles: &Option<Vec<u64>>, elder_role_id: u64) -> (elder: bool)
    ensures
        elder == (member_roles matches Some(roles) && roles@.contains(elder_role_id)),
{
    match member_roles {
        None => false,
        Some(roles) => has_role(roles, elder_role_id),
    }
}

} // verus!
