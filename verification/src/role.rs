//! An enumerated field on the wire: one byte, with a fixed tag for each
//! variant.

use vstd::prelude::*;

verus! {

/// What a person is at an institution.
#[derive(Debug, Clone, Copy, PartialEq, Eq, Structural)]
pub enum Role {
    /// Tag 1.
    Employee,
    /// Tag 2.
    Student,
}

/// The tag of a role.
pub open spec fn role_tag(role: Role) -> u8 {
    match role {
        Role::Employee => 1,
        Role::Student => 2,
    }
}

/// The role that a tag stands for, if any.
pub open spec fn tag_role(tag: u8) -> Option<Role> {
    if tag == 1 {
        Some(Role::Employee)
    } else if tag == 2 {
        Some(Role::Student)
    } else {
        None
    }
}

/// Every role is read back from its tag, and a tag that stands for a role is
/// the tag of that role.
pub proof fn lemma_role_roundtrip(role: Role, tag: u8)
    ensures
        tag_role(role_tag(role)) == Some(role),
        tag_role(tag) matches Some(r) ==> role_tag(r) == tag,
        tag_role(tag) is Some <==> tag == 1 || tag == 2,
{
}

/// Encodes a role as the one byte of its tag.
pub fn to_bytes(role: Role) -> (bytes: [u8; 1])
    ensures
        bytes@ == seq![role_tag(role)],
{
    let tag: u8 = match role {
        Role::Employee => 1,
        Role::Student => 2,
    };
    let bytes: [u8; 1] = [tag];
    assert(bytes@ =~= seq![role_tag(role)]);
    bytes
}

/// Decodes a role from the one byte of its tag; a byte that is no role's
/// tag gives `None`.
pub fn from_bytes(bytes: [u8; 1]) -> (role: Option<Role>)
    ensures
        role == tag_role(bytes@[0]),
{
    match bytes[0] {
        1 => Some(Role::Employee),
        2 => Some(Role::Student),
        _ => None,
    }
}

} // verus!
