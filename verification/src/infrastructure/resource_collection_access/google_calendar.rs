//! Sharing a resource's Google Calendar with a member through its access control list.
use crate::text::{owned, push_str, str_equal};
use vstd::prelude::*;

verus! {

/// Why access to a calendar could not be given or taken.
#[derive(Debug)]
pub enum ResourceCollectionAccessError {
    /// The member already has access.
    AlreadyGranted(String),
    /// The calendar service failed.
    ApiError(String),
    /// Anything else.
    Unknown(String),
}

/// What the logic reads of an access rule: its id and the address it is for.
#[derive(Debug)]
pub struct AclEntry {
    pub id: Option<String>,
    pub scope_value: Option<String>,
}

/// A rule to add: the role and the scope's type and address.
#[derive(Debug)]
pub struct AclRuleRequest {
    pub role: String,
    pub scope_type: String,
    pub scope_value: String,
}

/// Whether a rule is for the address.
pub open spec fn rule_for(e: AclEntry, email: Seq<char>) -> bool {
    e.scope_value matches Some(v) && v@ == email
}

/// The position of the first rule for the address, if any.
pub open spec fn first_rule_for(rules: Seq<AclEntry>, email: Seq<char>) -> Option<int>
    decreases rules.len(),
{
    if rules.len() == 0 {
        None
    } else {
        match first_rule_for(rules.drop_last(), email) {
            Some(i) => Some(i),
            None => if rule_for(rules.last(), email) {
                Some(rules.len() - 1)
            } else {
                None
            },
        }
    }
}

/// The message for a failed listing of a calendar's rules.
pub fn list_failed_message(calendar_id: &str, detail: &str) -> (m: String)
    ensures
        m@ == "カレンダー '"@ + calendar_id@ + "' のACL一覧取得に失敗: "@ + detail@,
{
    let mut m = owned("カレンダー '");
    push_str(&mut m, calendar_id);
    push_str(&mut m, "' のACL一覧取得に失敗: ");
    push_str(&mut m, detail);
    m
}

/// The message for a failed sharing.
pub fn share_failed_message(calendar_id: &str, email: &str, detail: &str) -> (m: String)
    ensures
        m@ == "カレンダー '"@ + calendar_id@ + "' を "@ + email@ + " と共有できませんでした: "@ + detail@,
{
    let mut m = owned("カレンダー '");
    push_str(&mut m, calendar_id);
    push_str(&mut m, "' を ");
    push_str(&mut m, email);
    push_str(&mut m, " と共有できませんでした: ");
    push_str(&mut m, detail);
    m
}

/// The message for a failed removal of access.
pub fn revoke_failed_message(calendar_id: &str, email: &str, detail: &str) -> (m: String)
    ensures
        m@ == "カレンダー '"@ + calendar_id@ + "' での "@ + email@ + " のアクセス権削除に失敗: "@
            + detail@,
{
    let mut m = owned("カレンダー '");
    push_str(&mut m, calendar_id);
    push_str(&mut m, "' での ");
    push_str(&mut m, email);
    push_str(&mut m, " のアクセス権削除に失敗: ");
    push_str(&mut m, detail);
    m
}

/// The position of the first rule for the address.
fn find_rule_for(rules: &[AclEntry], email: &str) -> (r: Option<usize>)
    ensures
        match first_rule_for(rules@, email@) {
            Some(i) => r matches Some(j) && j as int == i && i < rules@.len(),
            None => r is None,
        },
{
    let mut i: usize = 0;
    while i < rules.len()
        invariant
            i <= rules@.len(),
            first_rule_for(rules@.subrange(0, i as int), email@) is None,
        decreases rules@.len() - i,
    {
        let ghost p = rules@.subrange(0, i + 1);
        assert(p.drop_last() =~= rules@.subrange(0, i as int));
        assert(p.last() == rules@[i as int]);
        let found = match &rules[i].scope_value {
            Some(v) => str_equal(v.as_str(), email),
            None => false,
        };
        if found {
            proof {
                lemma_first_rule_extends(rules@, i as int, email@);
            }
            return Some(i);
        }
        i = i + 1;
    }
    assert(rules@.subrange(0, rules@.len() as int) =~= rules@);
    None
}

/// A rule found in a prefix is the first rule of the whole.
proof fn lemma_first_rule_extends(rules: Seq<AclEntry>, i: int, email: Seq<char>)
    requires
        0 <= i < rules.len(),
        first_rule_for(rules.subrange(0, i + 1), email) == Some(i),
    ensures
        first_rule_for(rules, email) == Some(i),
    decreases rules.len(),
{
    if rules.len() == i + 1 {
        assert(rules.subrange(0, i + 1) =~= rules);
    } else {
        let t = rules.drop_last();
        assert(t.subrange(0, i + 1) =~= rules.subrange(0, i + 1));
        lemma_first_rule_extends(t, i, email);
    }
}

/// Decides how to share the calendar with the member given its listed rules: an error when
/// a rule for the address exists already, else the writer rule for the user to add.
pub fn grant_access(calendar_id: &str, email: &str, rules: &Option<Vec<AclEntry>>) -> (r: Result<
    AclRuleRequest,
    ResourceCollectionAccessError,
>)
    ensures
        ({
            let granted = match rules {
                Some(v) => first_rule_for(v@, email@) is Some,
                None => false,
            };
            if granted {
                r matches Err(ResourceCollectionAccessError::AlreadyGranted(m)) && m@ == "カレンダー '"@
                    + calendar_id@ + "' に "@ + email@ + " は既にアクセス権を持っています"@
            } else {
                r matches Ok(req) && req.role@ == "writer"@ && req.scope_type@ == "user"@
                    && req.scope_value@ == email@
            }
        }),
{
    let granted = match rules {
        Some(v) => find_rule_for(v.as_slice(), email).is_some(),
        None => false,
    };
    if granted {
        let mut m = owned("カレンダー '");
        push_str(&mut m, calendar_id);
        push_str(&mut m, "' に ");
        push_str(&mut m, email);
        push_str(&mut m, " は既にアクセス権を持っています");
        return Err(ResourceCollectionAccessError::AlreadyGranted(m));
    }
    Ok(AclRuleRequest { role: owned("writer"), scope_type: owned("user"), scope_value: owned(email) })
}

/// Decides which rule to delete to take the member's access away: the id of the first rule
/// for the address; an error when there is none or it has no id.
pub fn revoke_access(calendar_id: &str, email: &str, rules: &Option<Vec<AclEntry>>) -> (r: Result<
    String,
    ResourceCollectionAccessError,
>)
    ensures
        ({
            let found = match rules {
                Some(v) => match first_rule_for(v@, email@) {
                    Some(i) => match v@[i].id {
                        Some(id) => Some(id@),
                        None => None,
                    },
                    None => None,
                },
                None => None,
            };
            match found {
                Some(id) => r matches Ok(x) && x@ == id,
                None => r matches Err(ResourceCollectionAccessError::Unknown(m)) && m@ == "カレンダー '"@
                    + calendar_id@ + "' で "@ + email@ + " に対するACLルールが見つかりませんでした"@,
            }
        }),
{
    let found: Option<String> = match rules {
        Some(v) => match find_rule_for(v.as_slice(), email) {
            Some(i) => match &v[i].id {
                Some(id) => Some(id.clone()),
                None => None,
            },
            None => None,
        },
        None => None,
    };
    match found {
        Some(id) => Ok(id),
        None => {
            let mut m = owned("カレンダー '");
            push_str(&mut m, calendar_id);
            push_str(&mut m, "' で ");
            push_str(&mut m, email);
            push_str(&mut m, " に対するACLルールが見つかりませんでした");
            Err(ResourceCollectionAccessError::Unknown(m))
        },
    }
}

} // verus!
