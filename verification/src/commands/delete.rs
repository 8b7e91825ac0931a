use vstd::prelude::*;

verus! {

/// The one user who may have messages deleted.
pub const OWNER_ID: i64 = 807128293;

/// The command that deletes the message it replies to.
#[derive(Default)]
pub struct Delete;

/// The message to delete, if any: the one replied to, for the owner.
pub open spec fn deletion_target(user_id: i64, reply_to: Option<i64>) -> Option<i64> {
    if user_id == OWNER_ID {
        reply_to
    } else {
        None
    }
}

impl Delete {
    pub fn name(&self) -> (name: &'static str)
        ensures
            name@ == "delete"@,
    {
        "delete"
    }

    pub fn aliases(&self) -> (aliases: &[&'static str])
        ensures
            aliases@.len() == 1,
            aliases@[0]@ == "del"@,
    {
        let aliases: &'static [&'static str] = &["del"];
        aliases
    }

    /// Which message to delete for a command of `user_id` that replies
    /// to `reply_to`.
    pub fn target(user_id: i64, reply_to: Option<i64>) -> (message: Option<i64>)
        ensures
            message == deletion_target(user_id, reply_to),
    {
        if user_id != OWNER_ID {
            return None;
        }
        reply_to
    }
}

} // verus!
