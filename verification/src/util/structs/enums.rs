use vstd::prelude::*;

verus! {

/// The roles a player can be given.
#[derive(Debug, Clone, Copy, PartialEq, Eq, Hash)]
pub enum RoleType {
    Crewmate,
    Imposter,
    Scientist,
    Engineer,
    GuardianAngel,
    Shapeshifter,
}

/// The number that stands for `role` on the wire.
pub open spec fn role_number(role: RoleType) -> i16 {
    match role {
        RoleType::Crewmate => 0,
        RoleType::Imposter => 1,
        RoleType::Scientist => 2,
        RoleType::Engineer => 3,
        RoleType::GuardianAngel => 4,
        RoleType::Shapeshifter => 5,
    }
}

impl RoleType {
    /// The role that the number `n` stands for, where there is one.
    pub fn from_number(n: i16) -> (r: Option<RoleType>)
        ensures
            r is Some <==> 0 <= n <= 5,
            r is Some ==> role_number(r.unwrap()) == n,
    {
        if n == 0 {
            Some(RoleType::Crewmate)
        } else if n == 1 {
            Some(RoleType::Imposter)
        } else if n == 2 {
            Some(RoleType::Scientist)
        } else if n == 3 {
            Some(RoleType::Engineer)
        } else if n == 4 {
            Some(RoleType::GuardianAngel)
        } else if n == 5 {
            Some(RoleType::Shapeshifter)
        } else {
            None
        }
    }

    /// The number that stands for this role on the wire.
    pub fn number(&self) -> (r: i16)
        ensures
            r == role_number(*self),
    {
        match self {
            RoleType::Crewmate => 0,
            RoleType::Imposter => 1,
            RoleType::Scientist => 2,
            RoleType::Engineer => 3,
            RoleType::GuardianAngel => 4,
            RoleType::Shapeshifter => 5,
        }
    }
}

} // verus!
