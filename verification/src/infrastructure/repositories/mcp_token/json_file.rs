//! MCP access tokens kept by token, stored as a JSON file: each names a member's email.
use crate::assoc::{keys_of, lemma_lookup, lookup, StringMap};
use crate::infrastructure::repositories::resource_usage::id_mapper::{
    lemma_lookup_last_distinct, lookup_last,
};
use crate::domain::identity::Instant;
use crate::text::{owned, str_equal};
use vstd::prelude::*;

verus! {

/// Who a token was issued to, and when.
#[derive(Debug)]
pub struct McpTokenRecord {
    pub email: String,
    pub issued_at: Instant,
}

impl McpTokenRecord {
    /// A copy of the record.
    pub fn duplicate(&self) -> (r: McpTokenRecord)
        ensures
            r.email@ == self.email@,
            r.issued_at == self.issued_at,
    {
        McpTokenRecord { email: self.email.clone(), issued_at: self.issued_at }
    }
}

/// A fresh random token: a version 4 UUID in its hyphenated form (`uuid::Uuid::new_v4`,
/// then `to_string`).
///
/// Claimed of it: the text has 36 characters. Which token comes out is chance, and nothing
/// else is claimed of it.
#[verifier::external_body]
fn new_token() -> (t: String)
    ensures
        t@.len() == 36,
{
    uuid::Uuid::new_v4().to_string()
}

/// The current time (`chrono::Utc::now`, read as `timestamp` and `timestamp_subsec_nanos`).
///
/// Claimed of it: the nanoseconds are below a second. The time itself is not claimed.
#[verifier::external_body]
fn now_instant() -> (i: Instant)
    ensures
        i.nanos < 1_000_000_000,
{
    let now = chrono::Utc::now();
    Instant { seconds: now.timestamp(), nanos: now.timestamp_subsec_nanos() }
}

/// The email of an optional record.
pub open spec fn holder_of(o: Option<McpTokenRecord>) -> Option<Seq<char>> {
    match o {
        Some(r) => Some(r.email@),
        None => None,
    }
}

/// The position of the first record of the member, if any.
fn position_of_holder(entries: &[(String, McpTokenRecord)], email: &str) -> (r: Option<usize>)
    ensures
        match r {
            Some(k) => k < entries@.len() && entries@[k as int].1.email@ == email@,
            None => forall|j: int| 0 <= j < entries@.len() ==> entries@[j].1.email@ != email@,
        },
{
    let mut k: usize = 0;
    while k < entries.len()
        invariant
            k <= entries@.len(),
            forall|j: int| 0 <= j < k ==> entries@[j].1.email@ != email@,
        decreases entries@.len() - k,
    {
        if str_equal(entries[k].1.email.as_str(), email) {
            return Some(k);
        }
        k = k + 1;
    }
    None
}

/// `after` is `before` with `token` issued to `email`: the token names the member, every
/// token the member held before is revoked, and every other token is kept as it was.
pub open spec fn reissued(
    before: JsonFileMcpTokenRepository,
    after: JsonFileMcpTokenRepository,
    email: Seq<char>,
    token: Seq<char>,
) -> bool {
    &&& after.holder(token) == Some(email)
    &&& forall|t: Seq<char>| t != token ==> #[trigger] after.holder(t) == (if before.holder(t)
        == Some(email) {
        None
    } else {
        before.holder(t)
    })
    &&& after.path() == before.path()
}

/// Re-issuing a token to a member revokes the token they held (when the new one differs
/// from it), keeps the tokens of everyone else, leaves a token that was never issued
/// unknown, and the new token names the member.
pub proof fn lemma_reissue_revokes(
    before: JsonFileMcpTokenRepository,
    after: JsonFileMcpTokenRepository,
    email: Seq<char>,
    token: Seq<char>,
    old_token: Seq<char>,
)
    requires
        reissued(before, after, email, token),
        before.holder(old_token) == Some(email),
        old_token != token,
    ensures
        after.holder(old_token) is None,
        after.holder(token) == Some(email),
        forall|t: Seq<char>|
            t != token && before.holder(t) != Some(email) ==> #[trigger] after.holder(t)
                == before.holder(t),
        forall|t: Seq<char>| t != token && before.holder(t) is None ==> #[trigger] after.holder(t) is None,
{
    assert(after.holder(old_token) == (if before.holder(old_token) == Some(email) {
        None
    } else {
        before.holder(old_token)
    }));
}

/// A store that reads the tokens another store wrote names every token as that store did.
pub proof fn lemma_tokens_survive_reload(
    written: Seq<(String, McpTokenRecord)>,
    saved: JsonFileMcpTokenRepository,
    reloaded: JsonFileMcpTokenRepository,
)
    requires
        forall|t: Seq<char>| #[trigger] holder_of(lookup_last(written, t)) == saved.holder(t),
        forall|t: Seq<char>| #[trigger] reloaded.holder(t) == holder_of(lookup_last(written, t)),
    ensures
        forall|t: Seq<char>| #[trigger] reloaded.holder(t) == saved.holder(t),
{
    assert forall|t: Seq<char>| #[trigger] reloaded.holder(t) == saved.holder(t) by {
        assert(holder_of(lookup_last(written, t)) == saved.holder(t));
    }
}

/// MCP access tokens by token, stored as a JSON file.
pub struct JsonFileMcpTokenRepository {
    file_path: String,
    tokens: StringMap<McpTokenRecord>,
}

impl JsonFileMcpTokenRepository {
    /// No token is kept twice.
    #[verifier::type_invariant]
    closed spec fn wf(&self) -> bool {
        self.tokens.wf()
    }

    /// The email a token names, if it is kept.
    pub closed spec fn holder(&self, token: Seq<char>) -> Option<Seq<char>> {
        holder_of(self.tokens.get_spec(token))
    }

    /// The path of the file the tokens are stored in.
    pub closed spec fn path(&self) -> Seq<char> {
        self.file_path@
    }

    /// A store at the path, with no tokens yet read.
    pub fn new(file_path: String) -> (r: JsonFileMcpTokenRepository)
        ensures
            r.path() == file_path@,
            forall|t: Seq<char>| #[trigger] r.holder(t) is None,
    {
        JsonFileMcpTokenRepository { file_path, tokens: StringMap::new() }
    }

    /// Where the tokens are stored.
    pub fn file_path(&self) -> (p: &str)
        ensures
            p@ == self.path(),
    {
        self.file_path.as_str()
    }

    /// Takes the tokens read from the file, a later record of a token replacing an earlier
    /// one.
    pub fn load(&mut self, stored: &[(String, McpTokenRecord)])
        ensures
            final(self).path() == old(self).path(),
            forall|t: Seq<char>| #[trigger] final(self).holder(t) == holder_of(lookup_last(stored@, t)),
    {
        let mut m: StringMap<McpTokenRecord> = StringMap::new();
        let mut i: usize = 0;
        while i < stored.len()
            invariant
                i <= stored@.len(),
                m.wf(),
                forall|t: Seq<char>|
                    #[trigger] holder_of(m.get_spec(t)) == holder_of(lookup_last(
                        stored@.subrange(0, i as int),
                        t,
                    )),
            decreases stored@.len() - i,
        {
            let ghost before = m;
            m.insert(stored[i].0.clone(), stored[i].1.duplicate());
            proof {
                let p = stored@.subrange(0, i + 1);
                assert(p.drop_last() =~= stored@.subrange(0, i as int));
                assert(p.last() == stored@[i as int]);
                assert forall|t: Seq<char>|
                    #[trigger] holder_of(m.get_spec(t)) == holder_of(lookup_last(p, t)) by {
                    if t != stored@[i as int].0@ {
                        assert(m.get_spec(t) == before.get_spec(t));
                    }
                }
            }
            i = i + 1;
        }
        assert(stored@.subrange(0, stored@.len() as int) =~= stored@);
        self.tokens = m;
    }

    /// The tokens, for storing them.
    pub fn entries(&self) -> (e: &[(String, McpTokenRecord)])
        ensures
            forall|t: Seq<char>| #[trigger] holder_of(lookup(e@, t)) == self.holder(t),
            forall|t: Seq<char>| #[trigger] holder_of(lookup_last(e@, t)) == self.holder(t),
    {
        proof {
            use_type_invariant(self);
            assert forall|t: Seq<char>| #[trigger] holder_of(lookup_last(self.tokens.entries@, t))
                == self.holder(t) by {
                lemma_lookup_last_distinct(self.tokens.entries@, t);
            }
        }
        self.tokens.entries.as_slice()
    }

    /// Issues the token to the member: any token they held before is revoked.
    pub fn issue_token_with(&mut self, email: &str, token: String, issued_at: Instant)
        ensures
            reissued(*old(self), *final(self), email@, token@),
            final(self).holder(token@) == Some(email@),
            forall|t: Seq<char>| t != token@ ==> #[trigger] final(self).holder(t) == (
            if old(self).holder(t) == Some(email@) {
                None
            } else {
                old(self).holder(t)
            }),
            final(self).path() == old(self).path(),
    {
        proof {
            use_type_invariant(&*self);
        }
        let ghost h0 = |t: Seq<char>| holder_of(self.tokens.get_spec(t));
        let mut m: StringMap<McpTokenRecord> = StringMap::new();
        std::mem::swap(&mut m, &mut self.tokens);
        loop
            invariant
                m.wf(),
                forall|t: Seq<char>| #![trigger m.get_spec(t)]
                    (m.get_spec(t) is None || (m.get_spec(t) matches Some(r) && Some(r.email@) == h0(t))),
                forall|t: Seq<char>| #![trigger m.get_spec(t)]
                    h0(t) != Some(email@) ==> holder_of(m.get_spec(t)) == h0(t),
            ensures
                m.wf(),
                forall|t: Seq<char>| #![trigger m.get_spec(t)]
                    holder_of(m.get_spec(t)) == (if h0(t) == Some(email@) {
                        None
                    } else {
                        h0(t)
                    }),
            decreases m.entries@.len(),
        {
            let found_at = position_of_holder(m.entries.as_slice(), email);
            let found = found_at.is_some();
            if !found {
                proof {
                    assert forall|t: Seq<char>| #![trigger m.get_spec(t)]
                        holder_of(m.get_spec(t)) == (if h0(t) == Some(email@) {
                            None
                        } else {
                            h0(t)
                        }) by {
                        if m.get_spec(t) is Some {
                            crate::text::lemma_first_index(keys_of(m.entries@), t);
                            let j = crate::text::first_index(keys_of(m.entries@), t)->0;
                            assert(m.entries@[j].1.email@ != email@);
                        }
                    }
                }
                break;
            }
            let k = match found_at {
                Some(k) => k,
                None => 0,
            };
            let key = m.entries[k].0.clone();
            let ghost before = m;
            proof {
                lemma_lookup(m.entries@, key@);
            }
            m.remove(key.as_str());
            proof {
                assert(before.get_spec(key@) matches Some(r) && r.email@ == email@);
            }
        }
        m.insert(token, McpTokenRecord { email: owned(email), issued_at });
        self.tokens = m;
    }

    /// Issues a fresh random token to the member, revoking any they held; gives the token.
    pub fn issue_token(&mut self, email: &str) -> (token: String)
        ensures
            token@.len() == 36,
            reissued(*old(self), *final(self), email@, token@),
            final(self).holder(token@) == Some(email@),
            forall|t: Seq<char>| t != token@ ==> #[trigger] final(self).holder(t) == (
            if old(self).holder(t) == Some(email@) {
                None
            } else {
                old(self).holder(t)
            }),
            final(self).path() == old(self).path(),
    {
        let token = new_token();
        let issued_at = now_instant();
        self.issue_token_with(email, token.clone(), issued_at);
        token
    }

    /// The email the token was issued to, if it is kept.
    pub fn resolve(&self, token: &str) -> (r: Option<String>)
        ensures
            match self.holder(token@) {
                Some(e) => r matches Some(s) && s@ == e,
                None => r is None,
            },
    {
        match self.tokens.get(token) {
            Some(rec) => Some(rec.email.clone()),
            None => None,
        }
    }
}

} // verus!
