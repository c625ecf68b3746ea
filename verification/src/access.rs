//! The access-control resolver: pure decisions over file ownership
//! and permission rows, plus the share/revoke operations built on
//! them. Unauthorized access to an existing private file is decided
//! exactly like access to a missing file, so error shapes can never
//! reveal which of the two was the case.

use crate::models::{File, Permission};
use crate::repository::{
    pair_present, perm_id_taken, user_id_taken, FileRepository, PermissionRepository, StoreError,
    UserRepository, max_perm_id,
};
use vstd::prelude::*;

verus! {

/// Some record in `files` has this id and this owner.
pub open spec fn owner_of(files: Seq<File>, file_id: u32, user_id: u32) -> bool {
    exists|i: int| 0 <= i < files.len() && files[i].id == file_id && files[i].owner_id == user_id
}

/// The authenticated-download rule: the file exists and the
/// requester owns it, holds a grant on it, or it is public.
pub open spec fn download_allowed(
    files: Seq<File>,
    perms: Seq<Permission>,
    user_id: u32,
    file_id: u32,
) -> bool {
    exists|i: int|
        0 <= i < files.len() && files[i].id == file_id && (files[i].is_public
            || files[i].owner_id == user_id || pair_present(perms, file_id, user_id))
}

/// The public-download rule: the file exists and carries the public
/// flag. The permission table plays no part.
pub open spec fn public_download_allowed(files: Seq<File>, file_id: u32) -> bool {
    exists|i: int| 0 <= i < files.len() && files[i].id == file_id && files[i].is_public
}

/// Business logic for file access decisions.
pub struct FileService<'a> {
    pub files: &'a FileRepository,
    pub permissions: &'a PermissionRepository,
}

impl<'a> FileService<'a> {
    pub open spec fn wf(&self) -> bool {
        self.files.wf() && self.permissions.wf()
    }

    pub fn new(files: &'a FileRepository, permissions: &'a PermissionRepository) -> (r:
        FileService<'a>)
        ensures
            r.files@ == files@,
            r.permissions@ == permissions@,
    {
        FileService { files, permissions }
    }

    /// Whether a user can download a file: ownership or a stored
    /// grant. (The public flag is the public endpoint's business.)
    pub fn can_download(&self, user_id: u32, file_id: u32) -> (r: bool)
        requires
            self.wf(),
        ensures
            r == (owner_of(self.files@, file_id, user_id) || pair_present(
                self.permissions@,
                file_id,
                user_id,
            )),
    {
        if let Some(file) = self.files.find_by_id(file_id) {
            if file.owner_id == user_id {
                return true;
            }
            proof {
                lemma_unique_file_record(self.files@, file_id);
            }
        }
        self.permissions.user_has_access(user_id, file_id)
    }

    /// Resolves an authenticated download request. `None` for a
    /// missing file and for an existing file the requester may not
    /// see are the same outcome.
    pub fn get_for_download(&self, user_id: u32, file_id: u32) -> (r: Option<&File>)
        requires
            self.wf(),
        ensures
            r is Some <==> download_allowed(self.files@, self.permissions@, user_id, file_id),
            r matches Some(f) ==> f.id == file_id && self.files@.contains(*f) && (f.is_public
                || f.owner_id == user_id || pair_present(self.permissions@, file_id, user_id)),
    {
        let file = match self.files.find_by_id(file_id) {
            Some(f) => f,
            None => {
                return None;
            },
        };
        proof {
            lemma_unique_file_record(self.files@, file_id);
        }
        if file.is_public || file.owner_id == user_id {
            return Some(file);
        }
        if self.permissions.user_has_access(user_id, file_id) {
            return Some(file);
        }
        None
    }

    /// Resolves an unauthenticated download request: the public flag
    /// alone decides.
    pub fn get_public_for_download(&self, file_id: u32) -> (r: Option<&File>)
        requires
            self.wf(),
        ensures
            r is Some <==> public_download_allowed(self.files@, file_id),
            r matches Some(f) ==> f.id == file_id && self.files@.contains(*f) && f.is_public,
    {
        let file = match self.files.find_by_id(file_id) {
            Some(f) => f,
            None => {
                return None;
            },
        };
        proof {
            lemma_unique_file_record(self.files@, file_id);
        }
        if file.is_public {
            Some(file)
        } else {
            None
        }
    }
}

/// With unique file ids, every record carrying `file_id` is the same
/// record, so a property checked on the found record settles the
/// existential forms.
pub(crate) proof fn lemma_unique_file_record(files: Seq<File>, file_id: u32)
    requires
        crate::repository::unique_file_ids(files),
    ensures
        forall|i: int, j: int|
            (0 <= i < files.len() && 0 <= j < files.len() && files[i].id == file_id
                && files[j].id == file_id) ==> i == j,
{
    assert forall|i: int, j: int|
        (0 <= i < files.len() && 0 <= j < files.len() && files[i].id == file_id && files[j].id
            == file_id) implies i == j by {
        if i < j {
            assert(files[i].id != files[j].id);
        } else if j < i {
            assert(files[j].id != files[i].id);
        }
    }
}

/// Body of a share request: the user the grant is for.
pub struct ShareRequest {
    pub user_id: u32,
}

/// A granted share: the stored permission row's coordinates.
pub struct ShareResponse {
    pub permission_id: u32,
    pub file_id: u32,
    pub user_id: u32,
}

/// Failure of a share attempt. A file that does not exist and a file
/// the caller does not own produce the same `NotFound`; an unknown
/// target user does too, so shares cannot probe for usernames.
#[derive(Debug, PartialEq, Eq, Structural)]
pub enum ShareError {
    NotFound,
    Conflict,
    Internal,
}

/// What a share attempt decides, before any store write.
#[derive(PartialEq, Eq, Structural)]
pub enum ShareDecision {
    NotFound,
    Conflict,
    Grant,
}

/// The share rule: the caller must own an existing file and the
/// target user must exist, else NotFound; a live grant for the pair
/// is a Conflict; otherwise the grant is made.
pub open spec fn share_decision(
    files: Seq<File>,
    users: Seq<crate::models::User>,
    perms: Seq<Permission>,
    owner_id: u32,
    file_id: u32,
    target_user: u32,
) -> ShareDecision {
    if !owner_of(files, file_id, owner_id) {
        ShareDecision::NotFound
    } else if !user_id_taken(users, target_user) {
        ShareDecision::NotFound
    } else if pair_present(perms, file_id, target_user) {
        ShareDecision::Conflict
    } else {
        ShareDecision::Grant
    }
}

/// Grants `req.user_id` access to `file_id`, when `owner_id` owns it
/// and the target exists; at most one grant ever exists per pair.
pub fn share_file(
    files: &FileRepository,
    users: &UserRepository,
    permissions: &mut PermissionRepository,
    owner_id: u32,
    file_id: u32,
    req: &ShareRequest,
) -> (r: Result<ShareResponse, ShareError>)
    requires
        files.wf(),
        users.wf(),
        old(permissions).wf(),
    ensures
        final(permissions).wf(),
        (share_decision(files@, users@, old(permissions)@, owner_id, file_id, req.user_id)
            == ShareDecision::Grant && max_perm_id(old(permissions)@) < u32::MAX) ==> r is Ok,
        ({
            let d = share_decision(files@, users@, old(permissions)@, owner_id, file_id, req.user_id);
            match d {
                ShareDecision::NotFound => r == Err::<ShareResponse, ShareError>(
                    ShareError::NotFound,
                ) && final(permissions)@ == old(permissions)@,
                ShareDecision::Conflict => r == Err::<ShareResponse, ShareError>(
                    ShareError::Conflict,
                ) && final(permissions)@ == old(permissions)@,
                ShareDecision::Grant => match r {
                    Ok(resp) => {
                        &&& resp.file_id == file_id
                        &&& resp.user_id == req.user_id
                        &&& !perm_id_taken(old(permissions)@, resp.permission_id)
                        &&& final(permissions)@.len() == old(permissions)@.len() + 1
                        &&& final(permissions)@.drop_last() == old(permissions)@
                        &&& final(permissions)@.last().id == resp.permission_id
                        &&& final(permissions)@.last().file_id == file_id
                        &&& final(permissions)@.last().user_id == req.user_id
                        &&& final(permissions)@.last().permission_type is Shared
                        &&& pair_present(final(permissions)@, file_id, req.user_id)
                    },
                    Err(e) => e == ShareError::Internal && final(permissions)@ == old(
                        permissions,
                    )@ && max_perm_id(old(permissions)@) == u32::MAX,
                },
            }
        }),
{
    let file = match files.find_by_id(file_id) {
        Some(f) => f,
        None => {
            return Err(ShareError::NotFound);
        },
    };
    proof {
        lemma_unique_file_record(files@, file_id);
    }
    if file.owner_id != owner_id {
        return Err(ShareError::NotFound);
    }
    if users.find_by_id(req.user_id).is_none() {
        return Err(ShareError::NotFound);
    }
    if permissions.user_has_access(req.user_id, file_id) {
        return Err(ShareError::Conflict);
    }
    match permissions.insert_shared(file_id, req.user_id) {
        Ok(permission_id) => {
            proof {
                assert(permissions@[permissions@.len() - 1].file_id == file_id
                    && permissions@[permissions@.len() - 1].user_id == req.user_id);
            }
            Ok(ShareResponse { permission_id, file_id, user_id: req.user_id })
        },
        Err(_) => Err(ShareError::Internal),
    }
}

proof fn lemma_filter_congruence<A>(s: Seq<A>, p1: spec_fn(A) -> bool, p2: spec_fn(A) -> bool)
    requires
        forall|i: int| 0 <= i < s.len() ==> p1(s[i]) == p2(s[i]),
    ensures
        s.filter(p1) == s.filter(p2),
    decreases s.len(),
{
    reveal(Seq::filter);
    if s.len() > 0 {
        assert(forall|i: int|
            0 <= i < s.drop_last().len() ==> p1(#[trigger] s.drop_last()[i]) == p2(
                s.drop_last()[i],
            ));
        lemma_filter_congruence(s.drop_last(), p1, p2);
    }
}

proof fn lemma_unique_perm_record(perms: Seq<Permission>, permission_id: u32)
    requires
        crate::repository::unique_perm_ids(perms),
    ensures
        forall|i: int, j: int|
            (0 <= i < perms.len() && 0 <= j < perms.len() && perms[i].id == permission_id
                && perms[j].id == permission_id) ==> i == j,
{
    assert forall|i: int, j: int|
        (0 <= i < perms.len() && 0 <= j < perms.len() && perms[i].id == permission_id
            && perms[j].id == permission_id) implies i == j by {
        if i < j {
            assert(perms[i].id != perms[j].id);
        } else if j < i {
            assert(perms[j].id != perms[i].id);
        }
    }
}

/// The revoke-by-permission-id rule: the caller owns the file and
/// the row exists and belongs to that file.
pub open spec fn revoke_allowed(
    files: Seq<File>,
    perms: Seq<Permission>,
    owner_id: u32,
    file_id: u32,
    permission_id: u32,
) -> bool {
    owner_of(files, file_id, owner_id) && exists|i: int|
        0 <= i < perms.len() && perms[i].id == permission_id && perms[i].file_id == file_id
}

/// The revoke-by-user rule: the caller owns the file and a grant for
/// the (file, user) pair exists.
pub open spec fn revoke_by_user_allowed(
    files: Seq<File>,
    perms: Seq<Permission>,
    owner_id: u32,
    file_id: u32,
    target_user: u32,
) -> bool {
    owner_of(files, file_id, owner_id) && pair_present(perms, file_id, target_user)
}

/// Deletes the permission row `permission_id` from `file_id`, for
/// its owner. Any failure is the same `NotFound`.
pub fn revoke_share(
    files: &FileRepository,
    permissions: &mut PermissionRepository,
    owner_id: u32,
    file_id: u32,
    permission_id: u32,
) -> (r: Result<(), ShareError>)
    requires
        files.wf(),
        old(permissions).wf(),
    ensures
        final(permissions).wf(),
        r is Ok <==> revoke_allowed(files@, old(permissions)@, owner_id, file_id, permission_id),
        r is Ok ==> final(permissions)@ == old(permissions)@.filter(
            |p: Permission| p.id != permission_id,
        ) && !perm_id_taken(final(permissions)@, permission_id),
        r is Err ==> r == Err::<(), ShareError>(ShareError::NotFound) && final(permissions)@ == old(
            permissions,
        )@,
{
    let file = match files.find_by_id(file_id) {
        Some(f) => f,
        None => {
            return Err(ShareError::NotFound);
        },
    };
    proof {
        lemma_unique_file_record(files@, file_id);
    }
    if file.owner_id != owner_id {
        return Err(ShareError::NotFound);
    }
    let perm = match permissions.find_by_id(permission_id) {
        Some(p) => p,
        None => {
            return Err(ShareError::NotFound);
        },
    };
    proof {
        lemma_unique_perm_record(permissions@, permission_id);
    }
    if perm.file_id != file_id {
        return Err(ShareError::NotFound);
    }
    permissions.remove(permission_id);
    Ok(())
}

/// Deletes the grant held by `target_user_id` on `file_id`, for its
/// owner, resolving the row through the (file, user) pair.
pub fn revoke_share_by_user(
    files: &FileRepository,
    permissions: &mut PermissionRepository,
    owner_id: u32,
    file_id: u32,
    target_user_id: u32,
) -> (r: Result<(), ShareError>)
    requires
        files.wf(),
        old(permissions).wf(),
    ensures
        final(permissions).wf(),
        r is Ok <==> revoke_by_user_allowed(
            files@,
            old(permissions)@,
            owner_id,
            file_id,
            target_user_id,
        ),
        r is Ok ==> final(permissions)@ == old(permissions)@.filter(
            |p: Permission| !(p.file_id == file_id && p.user_id == target_user_id),
        ) && !pair_present(final(permissions)@, file_id, target_user_id),
        r is Err ==> r == Err::<(), ShareError>(ShareError::NotFound) && final(permissions)@ == old(
            permissions,
        )@,
{
    let file = match files.find_by_id(file_id) {
        Some(f) => f,
        None => {
            return Err(ShareError::NotFound);
        },
    };
    proof {
        lemma_unique_file_record(files@, file_id);
    }
    if file.owner_id != owner_id {
        return Err(ShareError::NotFound);
    }
    let pid = match permissions.find_pair_id(file_id, target_user_id) {
        Some(p) => p,
        None => {
            return Err(ShareError::NotFound);
        },
    };
    let ghost pre = permissions@;
    permissions.remove(pid);
    proof {
        let p_id = |p: Permission| p.id != pid;
        let p_pair = |p: Permission| !(p.file_id == file_id && p.user_id == target_user_id);
        let w = choose|i: int|
            0 <= i < pre.len() && pre[i].id == pid && pre[i].file_id == file_id
                && pre[i].user_id == target_user_id;
        assert forall|i: int| 0 <= i < pre.len() implies p_id(pre[i]) == p_pair(pre[i]) by {
            if i != w {
                if i < w {
                    assert(pre[i].id != pre[w].id);
                    assert(!(pre[i].file_id == pre[w].file_id && pre[i].user_id
                        == pre[w].user_id));
                } else {
                    assert(pre[w].id != pre[i].id);
                    assert(!(pre[w].file_id == pre[i].file_id && pre[w].user_id
                        == pre[i].user_id));
                }
            }
        }
        lemma_filter_congruence(pre, p_id, p_pair);
        assert forall|i: int|
            0 <= i < permissions@.len() implies p_pair(#[trigger] permissions@[i]) by {
            Seq::lemma_filter_pred(pre, p_pair, i);
        }
        assert(!pair_present(permissions@, file_id, target_user_id));
    }
    Ok(())
}

/// A grant already on the books turns any further share of the same
/// file with the same user into a Conflict: a second share can never
/// be granted, and for a legitimate owner and an existing target it
/// reports Conflict exactly.
pub proof fn lemma_second_share_conflicts(
    files: Seq<File>,
    users: Seq<crate::models::User>,
    perms: Seq<Permission>,
    owner_id: u32,
    file_id: u32,
    target_user: u32,
)
    requires
        pair_present(perms, file_id, target_user),
    ensures
        share_decision(files, users, perms, owner_id, file_id, target_user)
            != ShareDecision::Grant,
        (owner_of(files, file_id, owner_id) && user_id_taken(users, target_user))
            ==> share_decision(files, users, perms, owner_id, file_id, target_user)
            == ShareDecision::Conflict,
{
}

/// Once the pair's grant is gone — as revoking leaves it — sharing
/// the same file with the same user is granted again.
pub proof fn lemma_share_again_after_revoke(
    files: Seq<File>,
    users: Seq<crate::models::User>,
    perms: Seq<Permission>,
    owner_id: u32,
    file_id: u32,
    target_user: u32,
)
    requires
        owner_of(files, file_id, owner_id),
        user_id_taken(users, target_user),
        !pair_present(perms, file_id, target_user),
    ensures
        share_decision(files, users, perms, owner_id, file_id, target_user)
            == ShareDecision::Grant,
{
}

/// Anti-enumeration: to a requester who neither owns an existing
/// private file nor holds a grant on it, the download rule answers
/// exactly as it does for an id that exists nowhere. Error shapes
/// cannot reveal whether the file exists.
pub proof fn lemma_private_file_masked(
    files: Seq<File>,
    perms: Seq<Permission>,
    user_id: u32,
    file_id: u32,
    missing_id: u32,
)
    requires
        forall|i: int|
            (0 <= i < files.len() && files[i].id == file_id) ==> (!files[i].is_public
                && files[i].owner_id != user_id),
        !pair_present(perms, file_id, user_id),
        !crate::repository::file_id_taken(files, missing_id),
    ensures
        !download_allowed(files, perms, user_id, file_id),
        download_allowed(files, perms, user_id, file_id) == download_allowed(
            files,
            perms,
            user_id,
            missing_id,
        ),
{
}

/// The public flag alone gates the public endpoint: while no record
/// under this id carries it, public download is refused, whatever
/// the permission table holds.
pub proof fn lemma_public_download_needs_flag(files: Seq<File>, file_id: u32)
    requires
        forall|i: int| (0 <= i < files.len() && files[i].id == file_id) ==> !files[i].is_public,
    ensures
        !public_download_allowed(files, file_id),
{
}

} // verus!
