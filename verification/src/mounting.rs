use vstd::prelude::*;
use crate::commands::Alignment;

verus! {

/// The entity with `pet_alignment` is a pet of the entity with `owner_uid`.
pub open spec fn is_pet_of(pet_alignment: Option<Alignment>, owner_uid: u64) -> bool {
    pet_alignment == Some(Alignment::Owned(owner_uid))
}

/// A link of a rider to its mount, as their uids.
#[derive(Clone, Copy, PartialEq, Eq, Structural, Debug)]
pub struct Mounting {
    pub mount: u64,
    pub rider: u64,
}

/// Decides whether a rider may mount an entity: the two must be in range
/// and have uids, one must be the other's pet, the mount must be able to
/// carry the rider, and it must not have been told to stay.
pub fn mount_entity_link(
    within_range: bool,
    rider_uid: Option<u64>,
    mount_uid: Option<u64>,
    rider_alignment: Option<Alignment>,
    mount_alignment: Option<Alignment>,
    can_ride: bool,
    mount_stays: bool,
) -> (link: Option<Mounting>)
    ensures
        link is Some <==> (within_range && rider_uid is Some && mount_uid is Some && (is_pet_of(
            mount_alignment,
            rider_uid->0,
        ) || is_pet_of(rider_alignment, mount_uid->0)) && can_ride && !mount_stays),
        link matches Some(m) ==> m.mount == mount_uid->0 && m.rider == rider_uid->0,
{
    if !within_range {
        return None;
    }
    match (rider_uid, mount_uid) {
        (Some(rider), Some(mount)) => {
            let mount_is_pet = match mount_alignment {
                Some(Alignment::Owned(owner)) => owner == rider,
                _ => false,
            };
            let rider_is_pet = match rider_alignment {
                Some(Alignment::Owned(owner)) => owner == mount,
                _ => false,
            };
            if (mount_is_pet || rider_is_pet) && can_ride && !mount_stays {
                Some(Mounting { mount, rider })
            } else {
                None
            }
        },
        _ => None,
    }
}

} // verus!
