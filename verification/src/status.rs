//! Which users are connected, and whether they move.
use vstd::prelude::*;

use crate::text_map::TextMap;

verus! {

/// The state of a connected user. Whoever is not connected has none.
#[derive(Debug, Clone, Copy, PartialEq, Eq, Structural)]
pub enum UserStatus {
    Stationary,
    Moving,
}

impl UserStatus {
    /// The word for a state.
    pub open spec fn word(self) -> Seq<char> {
        match self {
            UserStatus::Stationary => "stationary"@,
            UserStatus::Moving => "moving"@,
        }
    }

    /// The word for this state.
    pub fn as_str(&self) -> (r: &'static str)
        ensures
            r@ == self.word(),
    {
        match self {
            UserStatus::Stationary => "stationary",
            UserStatus::Moving => "moving",
        }
    }
}

/// The states of the connected users.
pub struct StatusStore {
    statuses: TextMap<UserStatus>,
}

impl View for StatusStore {
    type V = Map<Seq<char>, UserStatus>;

    closed spec fn view(&self) -> Map<Seq<char>, UserStatus> {
        self.statuses@
    }
}

impl StatusStore {
    /// Nobody is connected.
    pub fn new() -> (r: Self)
        ensures
            r@ == Map::<Seq<char>, UserStatus>::empty(),
    {
        StatusStore { statuses: TextMap::new() }
    }

    /// The state of a user.
    pub fn get(&self, user: &str) -> (r: Option<UserStatus>)
        ensures
            r == if self@.contains_key(user@) {
                Some(self@[user@])
            } else {
                None
            },
    {
        match self.statuses.get(user) {
            Some(s) => Some(*s),
            None => None,
        }
    }
}

/// Sets the state of a user, and says whether that changed it.
pub fn set(store: &mut StatusStore, user: &str, new_status: UserStatus) -> (r: bool)
    ensures
        final(store)@ == old(store)@.insert(user@, new_status),
        r <==> !(old(store)@.contains_key(user@) && old(store)@[user@] == new_status),
{
    let same = match store.get(user) {
        Some(s) => s == new_status,
        None => false,
    };
    store.statuses.insert(user, new_status);
    !same
}

/// Marks a user as no longer connected, and says whether the user was.
pub fn remove(store: &mut StatusStore, user: &str) -> (r: bool)
    ensures
        final(store)@ == old(store)@.remove(user@),
        r <==> old(store)@.contains_key(user@),
{
    store.statuses.remove(user).is_some()
}

/// The words for the states.
pub proof fn law_words_for_states()
    ensures
        UserStatus::Moving.word() == "moving"@,
        UserStatus::Stationary.word() == "stationary"@,
{
}

} // verus!
