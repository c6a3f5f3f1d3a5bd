//! Channel and user mode flags.
use vstd::prelude::*;

verus! {

/// Mode flags attached to a channel. New channels start with operator-only
/// topic control and no outside messages, everything else off.
pub struct ChannelMode {
    pub private: bool,
    pub secret: bool,
    pub invite_only: bool,
    pub topic_oper_only: bool,
    pub no_outside_messages: bool,
    pub limit: i32,
    pub ban_mask: Vec<String>,
    pub key: Option<String>,
}

/// Mode flags attached to a single user.
pub struct UserMode {
    pub invisible: bool,
    pub srv_notices: bool,
    pub wallops: bool,
    pub oper: bool,
}

impl ChannelMode {
    /// The mode a freshly created channel carries.
    pub fn default() -> (r: ChannelMode)
        ensures
            !r.private,
            !r.secret,
            !r.invite_only,
            r.topic_oper_only,
            r.no_outside_messages,
            r.limit == 0,
            r.ban_mask@.len() == 0,
            r.key is None,
    {
        ChannelMode {
            private: false,
            secret: false,
            invite_only: false,
            topic_oper_only: true,
            no_outside_messages: true,
            limit: 0,
            ban_mask: Vec::new(),
            key: None,
        }
    }
}

} // verus!
