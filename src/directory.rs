use vstd::prelude::*;

use crate::store::lines_view;

verus! {

/// A member of the workspace: its identifier and, if it has one, its real name.
pub struct UserInfo {
    pub id: String,
    pub real_name: Option<String>,
}

/// What the bot knows of the workspace: the identifiers of its public channels, and its users.
/// A conversation that is not a public channel is a private one.
pub struct Directory {
    pub public_channels: Vec<String>,
    pub users: Vec<UserInfo>,
}

/// The text of an optional string.
pub open spec fn opt_view(o: Option<String>) -> Option<Seq<char>> {
    match o {
        Some(s) => Some(s@),
        None => None,
    }
}

/// The real name of the first user of `users` whose identifier is `id`:
/// none where there is no such user, or where it has no real name.
pub open spec fn display_name(users: Seq<UserInfo>, id: Seq<char>) -> Option<Seq<char>>
    decreases users.len(),
{
    if users.len() == 0 {
        None
    } else if users[0].id@ == id {
        opt_view(users[0].real_name)
    } else {
        display_name(users.drop_first(), id)
    }
}

impl Directory {
    /// Whether `channel_id` names a private conversation.
    pub open spec fn is_private(&self, channel_id: Seq<char>) -> bool {
        !lines_view(self.public_channels@).contains(channel_id)
    }

    /// The display name of the user `user_id`, if it has one.
    pub open spec fn name_of(&self, user_id: Seq<char>) -> Option<Seq<char>> {
        display_name(self.users@, user_id)
    }

    /// Whether `channel_id` names a private conversation, that is no public channel.
    pub fn is_private_message(&self, channel_id: &String) -> (r: bool)
        ensures
            r == self.is_private(channel_id@),
    {
        let mut i: usize = 0;
        while i < self.public_channels.len()
            invariant
                i <= self.public_channels.len(),
                forall|j: int| 0 <= j < i ==> lines_view(self.public_channels@)[j] != channel_id@,
            decreases self.public_channels.len() - i,
        {
            if self.public_channels[i] == *channel_id {
                assert(lines_view(self.public_channels@)[i as int] == channel_id@);
                return false;
            }
            i += 1;
        }
        true
    }

    /// The real name of the user `user_id`, if the directory knows the user and its name.
    pub fn get_username(&self, user_id: &String) -> (r: Option<String>)
        ensures
            opt_view(r) == self.name_of(user_id@),
    {
        let ghost all = self.users@;
        let mut i: usize = 0;
        assert(all.subrange(0, all.len() as int) =~= all);
        while i < self.users.len()
            invariant
                i <= self.users.len(),
                all == self.users@,
                display_name(all, user_id@) == display_name(all.subrange(i as int, all.len() as int), user_id@),
            decreases self.users.len() - i,
        {
            let ghost rest = all.subrange(i as int, all.len() as int);
            assert(rest[0] == all[i as int]);
            assert(rest.drop_first() =~= all.subrange(i + 1, all.len() as int));
            let u = &self.users[i];
            if u.id == *user_id {
                return match &u.real_name {
                    Some(n) => Some(n.clone()),
                    None => None,
                };
            }
            i += 1;
        }
        None
    }
}

} // verus!
