//! The name under which the local user plays.

use vstd::prelude::*;
use crate::messages::ClientMessage;

verus! {

/// The name that the local user has typed, and whether it has been handed in.
pub struct PlayerName {
    pub name: String,
    pub submitted: bool,
}

impl PlayerName {
    /// No name yet, nothing handed in.
    pub fn new() -> (player_name: Self)
        ensures
            player_name.name@ == Seq::<char>::empty(),
            !player_name.submitted,
    {
        PlayerName { name: String::new(), submitted: false }
    }

    /// Hands the name in, if there is one: an empty name is not handed in.
    /// Returns what the server is to be told.
    pub fn submit(&mut self) -> (message: Option<ClientMessage>)
        ensures
            final(self).name == old(self).name,
            final(self).submitted == (old(self).submitted || old(self).name@.len() > 0),
            message is Some == (old(self).name@.len() > 0),
            message matches Some(sent) ==> sent matches ClientMessage::PlayerName(name) && name@
                == old(self).name@,
    {
        if !self.name.as_str().is_empty() {
            self.submitted = true;
            Some(ClientMessage::PlayerName(self.name.clone()))
        } else {
            None
        }
    }
}

} // verus!
