//! The refresh-session store: opaque single-use refresh tokens,
//! revocation, and the atomic rotation step that retires a token and
//! creates its unique successor. Rotation is the only way a token
//! ever leaves the live state, rows are never deleted, and a revoked
//! token can never rotate again — the reuse-detection guarantee.

use crate::models::RefreshToken;
use vstd::prelude::*;

verus! {

/// A row with this token string exists.
pub open spec fn token_present(s: Seq<RefreshToken>, t: Seq<char>) -> bool {
    exists|i: int| 0 <= i < s.len() && s[i].token@ == t
}

/// A live (not yet revoked) row with this token string exists.
pub open spec fn token_live(s: Seq<RefreshToken>, t: Seq<char>) -> bool {
    exists|i: int| 0 <= i < s.len() && s[i].token@ == t && s[i].is_live()
}

/// A revoked row with this token string exists.
pub open spec fn token_revoked(s: Seq<RefreshToken>, t: Seq<char>) -> bool {
    exists|i: int| 0 <= i < s.len() && s[i].token@ == t && s[i].revoked_at is Some
}

pub open spec fn unique_tokens(s: Seq<RefreshToken>) -> bool {
    forall|i: int, j: int| 0 <= i < j < s.len() ==> s[i].token@ != s[j].token@
}

/// The exact condition under which a rotation of `old_t` into
/// `new_t` is granted: the old token is live, and the new string is
/// not yet a row (the store's primary key).
pub open spec fn rotation_grants(s: Seq<RefreshToken>, old_t: Seq<char>, new_t: Seq<char>) -> bool {
    token_live(s, old_t) && !token_present(s, new_t)
}

/// Insertion refused: the token string is already a row.
#[derive(Debug)]
pub enum TokenStoreError {
    DuplicateToken,
}

/// In-memory refresh-token store. Rows are only ever added or
/// revoked, never removed, so a retired token string stays on the
/// books and can never be replayed or re-inserted.
pub struct RefreshTokenStore {
    tokens: Vec<RefreshToken>,
}

impl View for RefreshTokenStore {
    type V = Seq<RefreshToken>;

    closed spec fn view(&self) -> Seq<RefreshToken> {
        self.tokens@
    }
}

impl RefreshTokenStore {
    pub open spec fn wf(&self) -> bool {
        unique_tokens(self@)
    }

    pub fn new() -> (r: RefreshTokenStore)
        ensures
            r@ == Seq::<RefreshToken>::empty(),
            r.wf(),
    {
        RefreshTokenStore { tokens: Vec::new() }
    }

    pub fn count(&self) -> (r: usize)
        ensures
            r == self@.len(),
    {
        self.tokens.len()
    }

    fn find_index(&self, token: &str) -> (r: Option<usize>)
        ensures
            match r {
                Some(k) => k < self@.len() && self@[k as int].token@ == token@,
                None => !token_present(self@, token@),
            },
    {
        let wanted: String = token.to_owned();
        let n: usize = self.tokens.len();
        let mut k: usize = 0;
        while k < n
            invariant
                k <= n,
                n == self@.len(),
                wanted@ == token@,
                forall|j: int| 0 <= j < k ==> self@[j].token@ != token@,
            decreases n - k,
        {
            if self.tokens[k].token == wanted {
                return Some(k);
            }
            k = k + 1;
        }
        None
    }

    /// Stores a new live token row for `user_id`. Refused when the
    /// token string is already on the books (the primary key), which
    /// also keeps a retired string from ever becoming live again.
    pub fn insert(&mut self, token: String, user_id: u32, now: u64) -> (r: Result<
        (),
        TokenStoreError,
    >)
        requires
            old(self).wf(),
        ensures
            final(self).wf(),
            r is Ok <==> !token_present(old(self)@, token@),
            r is Ok ==> final(self)@.len() == old(self)@.len() + 1 && final(self)@.drop_last()
                == old(self)@ && final(self)@.last() == (RefreshToken {
                token: token,
                user_id: user_id,
                created_at: now,
                revoked_at: None,
                replaced_by: None,
            }),
            r is Err ==> final(self)@ == old(self)@,
            forall|t: Seq<char>|
                token_revoked(old(self)@, t) ==> token_revoked(final(self)@, t),
    {
        if self.find_index(token.as_str()).is_some() {
            return Err(TokenStoreError::DuplicateToken);
        }
        let row = RefreshToken { token, user_id, created_at: now, revoked_at: None, replaced_by: None };
        self.tokens.push(row);
        proof {
            assert(self@.drop_last() =~= old(self)@);
            assert forall|t: Seq<char>|
                token_revoked(old(self)@, t) implies token_revoked(self@, t) by {
                let i = choose|i: int|
                    0 <= i < old(self)@.len() && old(self)@[i].token@ == t && old(self)@[i].revoked_at is Some;
                assert(self@[i] == old(self)@[i]);
            }
        }
        Ok(())
    }

    /// Revokes every live token of one user: the single-active-
    /// session policy applied on login, registration and logout.
    pub fn revoke_all_for_user(&mut self, user_id: u32, now: u64)
        requires
            old(self).wf(),
        ensures
            final(self).wf(),
            final(self)@.len() == old(self)@.len(),
            forall|i: int|
                #![trigger final(self)@[i]]
                0 <= i < old(self)@.len() ==> {
                    let pre = old(self)@[i];
                    let post = final(self)@[i];
                    &&& post.token@ == pre.token@
                    &&& post.user_id == pre.user_id
                    &&& post.created_at == pre.created_at
                    &&& post.replaced_by == pre.replaced_by
                    &&& post.revoked_at == (if pre.user_id == user_id && pre.revoked_at is None {
                        Some(now)
                    } else {
                        pre.revoked_at
                    })
                },
            forall|i: int|
                0 <= i < final(self)@.len() && final(self)@[i].user_id == user_id ==> final(self)@[i].revoked_at is Some,
            forall|t: Seq<char>|
                token_revoked(old(self)@, t) ==> token_revoked(final(self)@, t),
    {
        let n: usize = self.tokens.len();
        let mut k: usize = 0;
        while k < n
            invariant
                k <= n,
                n == self@.len(),
                n == old(self)@.len(),
                forall|i: int| k <= i < n ==> self@[i] == old(self)@[i],
                forall|i: int|
                    #![trigger self@[i]]
                    0 <= i < k ==> {
                        let pre = old(self)@[i];
                        let post = self@[i];
                        &&& post.token@ == pre.token@
                        &&& post.user_id == pre.user_id
                        &&& post.created_at == pre.created_at
                        &&& post.replaced_by == pre.replaced_by
                        &&& post.revoked_at == (if pre.user_id == user_id
                            && pre.revoked_at is None {
                            Some(now)
                        } else {
                            pre.revoked_at
                        })
                    },
            decreases n - k,
        {
            if self.tokens[k].user_id == user_id && self.tokens[k].revoked_at.is_none() {
                let tok = self.tokens[k].token.clone();
                let uid = self.tokens[k].user_id;
                let created = self.tokens[k].created_at;
                let rep = match &self.tokens[k].replaced_by {
                    Some(s) => Some(s.clone()),
                    None => None,
                };
                let row = RefreshToken {
                    token: tok,
                    user_id: uid,
                    created_at: created,
                    revoked_at: Some(now),
                    replaced_by: rep,
                };
                self.tokens[k] = row;
            }
            k = k + 1;
        }
        proof {
            assert forall|i: int, j: int|
                0 <= i < j < self@.len() implies self@[i].token@ != self@[j].token@ by {
                assert(old(self)@[i].token@ != old(self)@[j].token@);
            }
            assert forall|t: Seq<char>|
                token_revoked(old(self)@, t) implies token_revoked(self@, t) by {
                let i = choose|i: int|
                    0 <= i < old(self)@.len() && old(self)@[i].token@ == t && old(self)@[i].revoked_at is Some;
                assert(self@[i].token@ == t && self@[i].revoked_at is Some);
            }
        }
    }

    /// The atomic rotation step. When `old_token` is live and
    /// `new_token` is fresh, one transaction revokes the old row,
    /// records `new_token` as its successor, and inserts the new
    /// live row for the same user; the rotated-out token is then no
    /// longer live, so presenting it again can never succeed. A
    /// missing or already-revoked token is refused as `Ok(None)` —
    /// reuse detection. A duplicate new string (never expected from
    /// an unguessable generator) leaves the store unchanged.
    pub fn rotate(&mut self, old_token: &str, new_token: String, now: u64) -> (r: Result<
        Option<u32>,
        TokenStoreError,
    >)
        requires
            old(self).wf(),
        ensures
            final(self).wf(),
            (r matches Ok(Some(_))) <==> rotation_grants(old(self)@, old_token@, new_token@),
            r matches Ok(Some(uid)) ==> exists|i: int|
                0 <= i < old(self)@.len() && old(self)@[i].token@ == old_token@ && old(self)@[i].revoked_at is None && old(self)@[i].user_id == uid,
            r == Ok::<Option<u32>, TokenStoreError>(None) <==> !token_live(
                old(self)@,
                old_token@,
            ),
            r is Err <==> token_live(old(self)@, old_token@) && token_present(
                old(self)@,
                new_token@,
            ),
            r matches Ok(Some(uid)) ==> {
                &&& final(self)@.len() == old(self)@.len() + 1
                &&& forall|i: int|
                    0 <= i < old(self)@.len() && old(self)@[i].token@ != old_token@ ==> final(self)@[i] == old(self)@[i]
                &&& forall|i: int|
                    0 <= i < old(self)@.len() && old(self)@[i].token@ == old_token@ ==> {
                        let post = final(self)@[i];
                        &&& post.token@ == old_token@
                        &&& post.user_id == uid
                        &&& post.created_at == old(self)@[i].created_at
                        &&& post.revoked_at == Some(now)
                        &&& (post.replaced_by matches Some(nt) && nt@ == new_token@)
                    }
                &&& final(self)@.last() == (RefreshToken {
                    token: new_token,
                    user_id: uid,
                    created_at: now,
                    revoked_at: None,
                    replaced_by: None,
                })
                &&& !token_live(final(self)@, old_token@)
                &&& token_live(final(self)@, new_token@)
                &&& token_revoked(final(self)@, old_token@)
            },
            !(r matches Ok(Some(_))) ==> final(self)@ == old(self)@,
            forall|t: Seq<char>|
                token_revoked(old(self)@, t) ==> token_revoked(final(self)@, t),
    {
        let idx = match self.find_index(old_token) {
            Some(k) => k,
            None => {
                return Ok(None);
            },
        };
        proof {
            lemma_unique_token_record(self@, old_token@);
        }
        if self.tokens[idx].revoked_at.is_some() {
            proof {
                assert(!token_live(self@, old_token@));
            }
            return Ok(None);
        }
        if self.find_index(new_token.as_str()).is_some() {
            return Err(TokenStoreError::DuplicateToken);
        }
        let uid = self.tokens[idx].user_id;
        let created = self.tokens[idx].created_at;
        let tok = self.tokens[idx].token.clone();
        let revoked_row = RefreshToken {
            token: tok,
            user_id: uid,
            created_at: created,
            revoked_at: Some(now),
            replaced_by: Some(new_token.clone()),
        };
        self.tokens[idx] = revoked_row;
        let ghost mid = self@;
        let new_row = RefreshToken {
            token: new_token,
            user_id: uid,
            created_at: now,
            revoked_at: None,
            replaced_by: None,
        };
        self.tokens.push(new_row);
        proof {
            let pre = old(self)@;
            let post = self@;
            let ki = idx as int;
            assert(post.drop_last() =~= mid);
            assert forall|i: int, j: int|
                0 <= i < j < post.len() implies post[i].token@ != post[j].token@ by {
                if j < post.len() - 1 {
                    if i != ki && j != ki {
                        assert(pre[i].token@ != pre[j].token@);
                    }
                } else {
                    if i != ki {
                        assert(post[i].token@ == pre[i].token@);
                    }
                }
            }
            assert forall|i: int|
                0 <= i < post.len() && post[i].token@ == old_token@ implies post[i].revoked_at
                is Some by {
                if i < post.len() - 1 && i != ki {
                    assert(pre[i].token@ == old_token@ && pre[ki].token@ == old_token@);
                    assert(i == ki);
                }
            }
            assert(token_live(post, new_token@)) by {
                assert(post.last().token@ == new_token@ && post.last().revoked_at is None);
            }
            assert forall|t: Seq<char>|
                token_revoked(pre, t) implies token_revoked(post, t) by {
                let i = choose|i: int|
                    0 <= i < pre.len() && pre[i].token@ == t && pre[i].revoked_at is Some;
                assert(i != ki);
                assert(post[i] == pre[i]);
            }
            assert(token_revoked(post, old_token@)) by {
                assert(post[ki].token@ == old_token@ && post[ki].revoked_at is Some);
            }
        }
        Ok(Some(uid))
    }
}

/// With unique token strings, every row carrying a given token is
/// the same row.
proof fn lemma_unique_token_record(s: Seq<RefreshToken>, t: Seq<char>)
    requires
        unique_tokens(s),
    ensures
        forall|i: int, j: int|
            (0 <= i < s.len() && 0 <= j < s.len() && s[i].token@ == t && s[j].token@ == t) ==> i
                == j,
{
    assert forall|i: int, j: int|
        (0 <= i < s.len() && 0 <= j < s.len() && s[i].token@ == t && s[j].token@ == t) implies i
        == j by {
        if i < j {
            assert(s[i].token@ != s[j].token@);
        } else if j < i {
            assert(s[j].token@ != s[i].token@);
        }
    }
}

/// Reuse rejection: in any store state where a token has been
/// revoked — as every successful rotation leaves it, and as every
/// store operation preserves — that token is not live, so the
/// rotation rule can never grant it again.
pub proof fn lemma_rotated_token_never_rotates_again(s: Seq<RefreshToken>, t: Seq<char>)
    requires
        unique_tokens(s),
        token_revoked(s, t),
    ensures
        !token_live(s, t),
        forall|n: Seq<char>| !rotation_grants(s, t, n),
{
    let i = choose|i: int| 0 <= i < s.len() && s[i].token@ == t && s[i].revoked_at is Some;
    lemma_unique_token_record(s, t);
    assert forall|j: int|
        0 <= j < s.len() && s[j].token@ == t implies s[j].revoked_at is Some by {
        assert(j == i);
    }
}

/// Two rotations race on the same live token; the store serializes
/// them, so one runs first. The first is granted; the state it
/// leaves holds the token as revoked, so the second — whatever fresh
/// successor string it brings — is refused: exactly one wins.
pub proof fn lemma_rotation_race_single_winner(
    pre: Seq<RefreshToken>,
    mid: Seq<RefreshToken>,
    t: Seq<char>,
    first_successor: Seq<char>,
    second_successor: Seq<char>,
)
    requires
        unique_tokens(pre),
        unique_tokens(mid),
        rotation_grants(pre, t, first_successor),
        token_revoked(mid, t),
    ensures
        !rotation_grants(mid, t, second_successor),
        !token_live(mid, t),
{
    lemma_rotated_token_never_rotates_again(mid, t);
}

} // verus!
