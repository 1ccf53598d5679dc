//! Direct messages to a member, addressed by email address: who on Slack that is.
use crate::domain::identity::{
    first_in_system, record_identities, ExternalSystem, ExternalSystemView, IdentityLink,
};
use crate::domain::notification::NotificationError;
use crate::text::{owned, push_str};
use vstd::prelude::*;

verus! {

/// The Slack user a member's linked identities name, or why a message cannot reach them:
/// no link for the email, or no Slack identity in it.
pub fn resolve_slack_user_id(email: &str, identity_link: Option<&IdentityLink>) -> (r: Result<
    String,
    NotificationError,
>)
    ensures
        match identity_link {
            None => r matches Err(NotificationError::SendFailure(m)) && m@
                == "IdentityLink未登録のためDMを送信できません: "@ + email@,
            Some(l) => match first_in_system(record_identities(l.records@), ExternalSystemView::Slack) {
                Some(i) => r matches Ok(id) && id@ == l.records@[i].identity.user_id@,
                None => r matches Err(NotificationError::SendFailure(m)) && m@
                    == "Slackアカウント未リンクのためDMを送信できません: "@ + email@,
            },
        },
{
    match identity_link {
        None => {
            let mut m = owned("IdentityLink未登録のためDMを送信できません: ");
            push_str(&mut m, email);
            Err(NotificationError::SendFailure(m))
        },
        Some(link) => match link.get_identity_for_system(&ExternalSystem::Slack) {
            Some(identity) => Ok(owned(identity.user_id())),
            None => {
                let mut m = owned("Slackアカウント未リンクのためDMを送信できません: ");
                push_str(&mut m, email);
                Err(NotificationError::SendFailure(m))
            },
        },
    }
}

} // verus!
