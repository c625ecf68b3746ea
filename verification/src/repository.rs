//! Verified in-memory record stores for users, files and permissions.
//! Each store is the sole assigner of its record ids and maintains the
//! uniqueness invariants that the transactional store of the deployed
//! system enforces (unique ids, unique usernames, one permission row
//! per (file, user) pair).

use crate::models::{File, Permission, PermissionType, User};
use vstd::prelude::*;

verus! {

/// Some record set already holds this id.
pub open spec fn user_id_taken(s: Seq<User>, id: u32) -> bool {
    exists|i: int| 0 <= i < s.len() && s[i].id == id
}

pub open spec fn username_taken(s: Seq<User>, name: Seq<char>) -> bool {
    exists|i: int| 0 <= i < s.len() && s[i].username@ == name
}

pub open spec fn unique_user_ids(s: Seq<User>) -> bool {
    forall|i: int, j: int| 0 <= i < j < s.len() ==> s[i].id != s[j].id
}

pub open spec fn unique_usernames(s: Seq<User>) -> bool {
    forall|i: int, j: int| 0 <= i < j < s.len() ==> s[i].username@ != s[j].username@
}

/// In-memory user store. The store assigns no ids itself: records
/// arrive complete through `add`, which demands freshness; username
/// uniqueness mirrors the unique column of the deployed store.
pub struct UserRepository {
    users: Vec<User>,
}

impl View for UserRepository {
    type V = Seq<User>;

    closed spec fn view(&self) -> Seq<User> {
        self.users@
    }
}

impl UserRepository {
    /// Well-formedness: ids and usernames are unique across records.
    pub open spec fn wf(&self) -> bool {
        unique_user_ids(self@) && unique_usernames(self@)
    }

    pub fn new() -> (r: UserRepository)
        ensures
            r@ == Seq::<User>::empty(),
            r.wf(),
    {
        UserRepository { users: Vec::new() }
    }

    pub fn add(&mut self, user: User)
        requires
            old(self).wf(),
            !user_id_taken(old(self)@, user.id),
            !username_taken(old(self)@, user.username@),
        ensures
            final(self)@ == old(self)@.push(user),
            final(self).wf(),
    {
        self.users.push(user);
    }

    pub fn find_by_id(&self, id: u32) -> (r: Option<&User>)
        ensures
            match r {
                Some(u) => u.id == id && exists|i: int| 0 <= i < self@.len() && self@[i] == *u,
                None => !user_id_taken(self@, id),
            },
    {
        let n: usize = self.users.len();
        let mut k: usize = 0;
        while k < n
            invariant
                k <= n,
                n == self@.len(),
                forall|j: int| 0 <= j < k ==> self@[j].id != id,
            decreases n - k,
        {
            if self.users[k].id == id {
                return Some(&self.users[k]);
            }
            k = k + 1;
        }
        None
    }

    pub fn find_by_username(&self, username: &str) -> (r: Option<&User>)
        ensures
            match r {
                Some(u) => u.username@ == username@ && exists|i: int|
                    0 <= i < self@.len() && self@[i] == *u,
                None => !username_taken(self@, username@),
            },
    {
        let wanted: String = username.to_owned();
        let n: usize = self.users.len();
        let mut k: usize = 0;
        while k < n
            invariant
                k <= n,
                n == self@.len(),
                wanted@ == username@,
                forall|j: int| 0 <= j < k ==> self@[j].username@ != username@,
            decreases n - k,
        {
            if self.users[k].username == wanted {
                return Some(&self.users[k]);
            }
            k = k + 1;
        }
        None
    }

    /// All records whose active flag is set, in store order.
    pub fn get_active_users(&self) -> (r: Vec<&User>)
        ensures
            r@.map_values(|u: &User| *u) == self@.filter(|u: User| u.active),
    {
        let n: usize = self.users.len();
        let mut r: Vec<&User> = Vec::new();
        let mut k: usize = 0;
        while k < n
            invariant
                k <= n,
                n == self@.len(),
                r@.map_values(|u: &User| *u) == self@.subrange(0, k as int).filter(
                    |u: User| u.active,
                ),
            decreases n - k,
        {
            proof {
                let pred = |u: User| u.active;
                let pre = self@.subrange(0, k as int);
                let post = self@.subrange(0, k as int + 1);
                let single = seq![self@[k as int]];
                assert(post =~= pre + single);
                Seq::filter_distributes_over_add(pre, single, pred);
                reveal_with_fuel(Seq::<_>::filter, 2);
                assert(single.drop_last() =~= Seq::<User>::empty());
                if pred(self@[k as int]) {
                    assert(single.filter(pred) =~= single);
                } else {
                    assert(single.filter(pred) =~= Seq::<User>::empty());
                    assert(post.filter(pred) =~= pre.filter(pred));
                }
            }
            if self.users[k].is_active() {
                r.push(&self.users[k]);
                proof {
                    assert(r@.map_values(|u: &User| *u) =~= r@.drop_last().map_values(
                        |u: &User| *u,
                    ).push(self@[k as int]));
                    assert(r@.map_values(|u: &User| *u) =~= self@.subrange(0, k as int + 1).filter(
                        |u: User| u.active,
                    ));
                }
            }
            k = k + 1;
        }
        proof {
            assert(self@.subrange(0, n as int) =~= self@);
        }
        r
    }

    pub fn count(&self) -> (r: usize)
        ensures
            r == self@.len(),
    {
        self.users.len()
    }

    /// Creates a user record, the store assigning the next id and
    /// refusing a username already on the books: the store is the
    /// sole arbiter of username uniqueness.
    pub fn insert_new(&mut self, username: String, password_hash: String) -> (r: Result<
        u32,
        StoreError,
    >)
        requires
            old(self).wf(),
        ensures
            final(self).wf(),
            match r {
                Ok(id) => {
                    &&& !username_taken(old(self)@, username@)
                    &&& id == max_user_id(old(self)@) + 1
                    &&& !user_id_taken(old(self)@, id)
                    &&& final(self)@.len() == old(self)@.len() + 1
                    &&& final(self)@.drop_last() == old(self)@
                    &&& final(self)@.last().id == id
                    &&& final(self)@.last().username@ == username@
                    &&& final(self)@.last().password_hash@ == password_hash@
                    &&& final(self)@.last().active
                    &&& final(self)@.last().email is None
                },
                Err(e) => final(self)@ == old(self)@ && match e {
                    StoreError::DuplicateKey => username_taken(old(self)@, username@),
                    StoreError::IdSpaceExhausted => !username_taken(old(self)@, username@)
                        && max_user_id(old(self)@) == u32::MAX,
                },
            },
    {
        if self.find_by_username(username.as_str()).is_some() {
            return Err(StoreError::DuplicateKey);
        }
        let n: usize = self.users.len();
        let mut m: u32 = 0;
        let mut k: usize = 0;
        while k < n
            invariant
                k <= n,
                n == self@.len(),
                m == max_user_id(self@.subrange(0, k as int)),
            decreases n - k,
        {
            proof {
                let post = self@.subrange(0, k as int + 1);
                assert(post.drop_last() =~= self@.subrange(0, k as int));
            }
            if self.users[k].id > m {
                m = self.users[k].id;
            }
            k = k + 1;
        }
        proof {
            assert(self@.subrange(0, n as int) =~= self@);
            lemma_max_user_id_bounds(self@);
        }
        if m == u32::MAX {
            return Err(StoreError::IdSpaceExhausted);
        }
        let id: u32 = m + 1;
        let user = User::new(id, username, password_hash);
        self.users.push(user);
        proof {
            assert(self@.drop_last() =~= old(self)@);
        }
        Ok(id)
    }
}

/// Failure of a store-side insert: a unique column already holds
/// the value, or the id space is used up.
#[derive(Debug)]
pub enum StoreError {
    IdSpaceExhausted,
    DuplicateKey,
}

/// The highest user id in use; 0 when the store is empty.
pub open spec fn max_user_id(s: Seq<User>) -> int
    decreases s.len(),
{
    if s.len() == 0 {
        0
    } else if s.last().id >= max_user_id(s.drop_last()) {
        s.last().id as int
    } else {
        max_user_id(s.drop_last())
    }
}

proof fn lemma_max_user_id_bounds(s: Seq<User>)
    ensures
        0 <= max_user_id(s),
        forall|i: int| 0 <= i < s.len() ==> s[i].id <= max_user_id(s),
    decreases s.len(),
{
    if s.len() > 0 {
        lemma_max_user_id_bounds(s.drop_last());
        assert forall|i: int| 0 <= i < s.len() implies s[i].id <= max_user_id(s) by {
            if i < s.len() - 1 {
                assert(s.drop_last()[i] == s[i]);
                assert(s.drop_last()[i].id <= max_user_id(s.drop_last()));
            }
        }
    }
}

pub(crate) proof fn lemma_filter_all<A>(s: Seq<A>, pred: spec_fn(A) -> bool)
    requires
        forall|i: int| 0 <= i < s.len() ==> pred(s[i]),
    ensures
        s.filter(pred) == s,
    decreases s.len(),
{
    reveal(Seq::filter);
    if s.len() > 0 {
        assert(forall|i: int|
            0 <= i < s.drop_last().len() ==> pred(#[trigger] s.drop_last()[i]));
        lemma_filter_all(s.drop_last(), pred);
        assert(s.drop_last().push(s.last()) =~= s);
    }
}

pub(crate) proof fn lemma_filter_out_one<A>(s: Seq<A>, pred: spec_fn(A) -> bool, idx: int)
    requires
        0 <= idx < s.len(),
        !pred(s[idx]),
        forall|i: int| 0 <= i < s.len() && i != idx ==> pred(s[i]),
    ensures
        s.filter(pred) == s.remove(idx),
{
    let a = s.subrange(0, idx);
    let b = seq![s[idx]];
    let c = s.subrange(idx + 1, s.len() as int);
    assert(s =~= a + b + c);
    Seq::filter_distributes_over_add(a + b, c, pred);
    Seq::filter_distributes_over_add(a, b, pred);
    assert(forall|i: int| 0 <= i < a.len() ==> pred(#[trigger] a[i]));
    assert(forall|i: int| 0 <= i < c.len() ==> pred(#[trigger] c[i]));
    lemma_filter_all(a, pred);
    lemma_filter_all(c, pred);
    reveal(Seq::filter);
    assert(b.drop_last() =~= Seq::<A>::empty());
    lemma_filter_all(b.drop_last(), pred);
    assert(b.filter(pred) =~= Seq::<A>::empty());
    assert(((a + b) + c).filter(pred) == (a.filter(pred) + b.filter(pred)) + c.filter(pred));
    assert(s.filter(pred) =~= a + c);
    assert(s.remove(idx) =~= a + c);
}

/// Some file record already holds this id.
pub open spec fn file_id_taken(s: Seq<File>, id: u32) -> bool {
    exists|i: int| 0 <= i < s.len() && s[i].id == id
}

pub open spec fn unique_file_ids(s: Seq<File>) -> bool {
    forall|i: int, j: int| 0 <= i < j < s.len() ==> s[i].id != s[j].id
}

/// The highest file id in use; 0 when the store is empty.
pub open spec fn max_file_id(s: Seq<File>) -> int
    decreases s.len(),
{
    if s.len() == 0 {
        0
    } else if s.last().id >= max_file_id(s.drop_last()) {
        s.last().id as int
    } else {
        max_file_id(s.drop_last())
    }
}

proof fn lemma_max_file_id_bounds(s: Seq<File>)
    ensures
        0 <= max_file_id(s),
        forall|i: int| 0 <= i < s.len() ==> s[i].id <= max_file_id(s),
    decreases s.len(),
{
    if s.len() > 0 {
        lemma_max_file_id_bounds(s.drop_last());
        assert forall|i: int| 0 <= i < s.len() implies s[i].id <= max_file_id(s) by {
            if i < s.len() - 1 {
                assert(s.drop_last()[i] == s[i]);
                assert(s.drop_last()[i].id <= max_file_id(s.drop_last()));
            }
        }
    }
}

/// In-memory file-metadata store. `insert_new` is the sole assigner
/// of file ids, so a fresh id can never be guessed in advance by a
/// concurrent uploader.
pub struct FileRepository {
    files: Vec<File>,
}

impl View for FileRepository {
    type V = Seq<File>;

    closed spec fn view(&self) -> Seq<File> {
        self.files@
    }
}

impl FileRepository {
    pub open spec fn wf(&self) -> bool {
        unique_file_ids(self@)
    }

    pub fn new() -> (r: FileRepository)
        ensures
            r@ == Seq::<File>::empty(),
            r.wf(),
    {
        FileRepository { files: Vec::new() }
    }

    pub fn add(&mut self, file: File)
        requires
            old(self).wf(),
            !file_id_taken(old(self)@, file.id),
        ensures
            final(self)@ == old(self)@.push(file),
            final(self).wf(),
    {
        self.files.push(file);
    }

    pub fn find_by_id(&self, id: u32) -> (r: Option<&File>)
        ensures
            match r {
                Some(f) => f.id == id && exists|i: int| 0 <= i < self@.len() && self@[i] == *f,
                None => !file_id_taken(self@, id),
            },
    {
        let n: usize = self.files.len();
        let mut k: usize = 0;
        while k < n
            invariant
                k <= n,
                n == self@.len(),
                forall|j: int| 0 <= j < k ==> self@[j].id != id,
            decreases n - k,
        {
            if self.files[k].id == id {
                return Some(&self.files[k]);
            }
            k = k + 1;
        }
        None
    }

    /// All records owned by `owner_id`, in store order.
    pub fn find_by_owner(&self, owner_id: u32) -> (r: Vec<&File>)
        ensures
            r@.map_values(|f: &File| *f) == self@.filter(|f: File| f.owner_id == owner_id),
    {
        let n: usize = self.files.len();
        let mut r: Vec<&File> = Vec::new();
        let mut k: usize = 0;
        while k < n
            invariant
                k <= n,
                n == self@.len(),
                r@.map_values(|f: &File| *f) == self@.subrange(0, k as int).filter(
                    |f: File| f.owner_id == owner_id,
                ),
            decreases n - k,
        {
            proof {
                let pred = |f: File| f.owner_id == owner_id;
                let pre = self@.subrange(0, k as int);
                let post = self@.subrange(0, k as int + 1);
                let single = seq![self@[k as int]];
                assert(post =~= pre + single);
                Seq::filter_distributes_over_add(pre, single, pred);
                reveal_with_fuel(Seq::<_>::filter, 2);
                assert(single.drop_last() =~= Seq::<File>::empty());
                if pred(self@[k as int]) {
                    assert(single.filter(pred) =~= single);
                } else {
                    assert(single.filter(pred) =~= Seq::<File>::empty());
                    assert(post.filter(pred) =~= pre.filter(pred));
                }
            }
            if self.files[k].owner_id == owner_id {
                r.push(&self.files[k]);
                proof {
                    assert(r@.map_values(|f: &File| *f) =~= r@.drop_last().map_values(
                        |f: &File| *f,
                    ).push(self@[k as int]));
                    assert(r@.map_values(|f: &File| *f) =~= self@.subrange(0, k as int + 1).filter(
                        |f: File| f.owner_id == owner_id,
                    ));
                }
            }
            k = k + 1;
        }
        proof {
            assert(self@.subrange(0, n as int) =~= self@);
        }
        r
    }

    pub fn count(&self) -> (r: usize)
        ensures
            r == self@.len(),
    {
        self.files.len()
    }

    /// Inserts a new metadata row, the store assigning the next id.
    /// Fails only when the id space is exhausted.
    pub fn insert_new(
        &mut self,
        filename: String,
        size: u64,
        owner_id: u32,
        is_public: bool,
        uploaded_at: i64,
    ) -> (r: Result<u32, StoreError>)
        requires
            old(self).wf(),
        ensures
            match r {
                Ok(id) => {
                    &&& id == max_file_id(old(self)@) + 1
                    &&& !file_id_taken(old(self)@, id)
                    &&& final(self)@.len() == old(self)@.len() + 1
                    &&& final(self)@.drop_last() == old(self)@
                    &&& final(self)@.last().id == id
                    &&& final(self)@.last().filename@ == filename@
                    &&& final(self)@.last().size == size
                    &&& final(self)@.last().owner_id == owner_id
                    &&& final(self)@.last().is_public == is_public
                    &&& final(self)@.last().uploaded_at == uploaded_at
                    &&& final(self)@.last().description is None
                },
                Err(_) => final(self)@ == old(self)@ && max_file_id(old(self)@) == u32::MAX,
            },
            final(self).wf(),
    {
        let n: usize = self.files.len();
        let mut m: u32 = 0;
        let mut k: usize = 0;
        while k < n
            invariant
                k <= n,
                n == self@.len(),
                m == max_file_id(self@.subrange(0, k as int)),
            decreases n - k,
        {
            proof {
                let post = self@.subrange(0, k as int + 1);
                assert(post.drop_last() =~= self@.subrange(0, k as int));
            }
            if self.files[k].id > m {
                m = self.files[k].id;
            }
            k = k + 1;
        }
        proof {
            assert(self@.subrange(0, n as int) =~= self@);
            lemma_max_file_id_bounds(self@);
        }
        if m == u32::MAX {
            return Err(StoreError::IdSpaceExhausted);
        }
        let id: u32 = m + 1;
        let file = File {
            id,
            filename,
            size,
            owner_id,
            is_public,
            uploaded_at,
            description: None,
        };
        self.files.push(file);
        proof {
            assert(self@.drop_last() =~= old(self)@);
        }
        Ok(id)
    }

    /// Deletes the row with this id, if any: the compensating step of
    /// a failed upload commit.
    pub fn remove(&mut self, id: u32)
        requires
            old(self).wf(),
        ensures
            final(self)@ == old(self)@.filter(|f: File| f.id != id),
            final(self).wf(),
            !file_id_taken(final(self)@, id),
    {
        let n: usize = self.files.len();
        let mut k: usize = 0;
        while k < n
            invariant
                k <= n,
                n == self@.len(),
                self@ == old(self)@,
                self.wf(),
                forall|j: int| 0 <= j < k ==> self@[j].id != id,
            decreases n - k,
        {
            if self.files[k].id == id {
                let ghost s = self@;
                let ghost ki = k as int;
                proof {
                    assert forall|i: int| 0 <= i < s.len() && i != ki implies (|f: File|
                        f.id != id)(s[i]) by {
                        if i < ki {
                            assert(s[i].id != id);
                        } else {
                            assert(s[ki].id != s[i].id);
                        }
                    }
                    lemma_filter_out_one(s, |f: File| f.id != id, ki);
                }
                self.files.remove(k);
                proof {
                    assert(self@ =~= s.subrange(0, ki) + s.subrange(ki + 1, s.len() as int));
                    assert forall|j: int| 0 <= j < self@.len() implies self@[j] == (if j < ki {
                        s[j]
                    } else {
                        s[j + 1]
                    }) by {}
                    assert forall|i: int, j: int|
                        0 <= i < j < self@.len() implies self@[i].id != self@[j].id by {
                        let a = if i < ki { i } else { i + 1 };
                        let b = if j < ki { j } else { j + 1 };
                        assert(self@[i] == s[a] && self@[j] == s[b]);
                        assert(s[a].id != s[b].id);
                    }
                    assert forall|j: int| 0 <= j < self@.len() implies self@[j].id != id by {
                        let a = if j < ki { j } else { j + 1 };
                        assert(self@[j] == s[a]);
                        if a != ki {
                            assert(s[a].id != s[ki].id);
                        }
                    }
                }
                return ;
            }
            k = k + 1;
        }
        proof {
            assert(forall|i: int| 0 <= i < self@.len() ==> (|f: File| f.id != id)(#[trigger] self@[i]));
            lemma_filter_all(self@, |f: File| f.id != id);
        }
    }
}

/// Some permission row already holds this id.
pub open spec fn perm_id_taken(s: Seq<Permission>, id: u32) -> bool {
    exists|i: int| 0 <= i < s.len() && s[i].id == id
}

/// A permission row for this (file, user) pair exists.
pub open spec fn pair_present(s: Seq<Permission>, file_id: u32, user_id: u32) -> bool {
    exists|i: int| 0 <= i < s.len() && s[i].file_id == file_id && s[i].user_id == user_id
}

pub open spec fn unique_perm_ids(s: Seq<Permission>) -> bool {
    forall|i: int, j: int| 0 <= i < j < s.len() ==> s[i].id != s[j].id
}

/// At most one permission row per (file, user) pair.
pub open spec fn unique_pairs(s: Seq<Permission>) -> bool {
    forall|i: int, j: int|
        0 <= i < j < s.len() ==> !(s[i].file_id == s[j].file_id && s[i].user_id == s[j].user_id)
}

/// The highest permission id in use; 0 when the store is empty.
pub open spec fn max_perm_id(s: Seq<Permission>) -> int
    decreases s.len(),
{
    if s.len() == 0 {
        0
    } else if s.last().id >= max_perm_id(s.drop_last()) {
        s.last().id as int
    } else {
        max_perm_id(s.drop_last())
    }
}

proof fn lemma_max_perm_id_bounds(s: Seq<Permission>)
    ensures
        0 <= max_perm_id(s),
        forall|i: int| 0 <= i < s.len() ==> s[i].id <= max_perm_id(s),
    decreases s.len(),
{
    if s.len() > 0 {
        lemma_max_perm_id_bounds(s.drop_last());
        assert forall|i: int| 0 <= i < s.len() implies s[i].id <= max_perm_id(s) by {
            if i < s.len() - 1 {
                assert(s.drop_last()[i] == s[i]);
                assert(s.drop_last()[i].id <= max_perm_id(s.drop_last()));
            }
        }
    }
}

/// In-memory permission store: the share grants. Uniqueness of the
/// (file, user) pair is what turns a duplicate share into a Conflict.
pub struct PermissionRepository {
    permissions: Vec<Permission>,
}

impl View for PermissionRepository {
    type V = Seq<Permission>;

    closed spec fn view(&self) -> Seq<Permission> {
        self.permissions@
    }
}

impl PermissionRepository {
    pub open spec fn wf(&self) -> bool {
        unique_perm_ids(self@) && unique_pairs(self@)
    }

    pub fn new() -> (r: PermissionRepository)
        ensures
            r@ == Seq::<Permission>::empty(),
            r.wf(),
    {
        PermissionRepository { permissions: Vec::new() }
    }

    pub fn add(&mut self, permission: Permission)
        requires
            old(self).wf(),
            !perm_id_taken(old(self)@, permission.id),
            !pair_present(old(self)@, permission.file_id, permission.user_id),
        ensures
            final(self)@ == old(self)@.push(permission),
            final(self).wf(),
    {
        self.permissions.push(permission);
    }

    pub fn find_by_id(&self, id: u32) -> (r: Option<&Permission>)
        ensures
            match r {
                Some(p) => p.id == id && exists|i: int| 0 <= i < self@.len() && self@[i] == *p,
                None => !perm_id_taken(self@, id),
            },
    {
        let n: usize = self.permissions.len();
        let mut k: usize = 0;
        while k < n
            invariant
                k <= n,
                n == self@.len(),
                forall|j: int| 0 <= j < k ==> self@[j].id != id,
            decreases n - k,
        {
            if self.permissions[k].id == id {
                return Some(&self.permissions[k]);
            }
            k = k + 1;
        }
        None
    }

    /// All grants on one file, in store order.
    pub fn find_by_file(&self, file_id: u32) -> (r: Vec<&Permission>)
        ensures
            r@.map_values(|p: &Permission| *p) == self@.filter(
                |p: Permission| p.file_id == file_id,
            ),
    {
        let n: usize = self.permissions.len();
        let mut r: Vec<&Permission> = Vec::new();
        let mut k: usize = 0;
        while k < n
            invariant
                k <= n,
                n == self@.len(),
                r@.map_values(|p: &Permission| *p) == self@.subrange(0, k as int).filter(
                    |p: Permission| p.file_id == file_id,
                ),
            decreases n - k,
        {
            proof {
                let pred = |p: Permission| p.file_id == file_id;
                let pre = self@.subrange(0, k as int);
                let post = self@.subrange(0, k as int + 1);
                let single = seq![self@[k as int]];
                assert(post =~= pre + single);
                Seq::filter_distributes_over_add(pre, single, pred);
                reveal_with_fuel(Seq::<_>::filter, 2);
                assert(single.drop_last() =~= Seq::<Permission>::empty());
                if pred(self@[k as int]) {
                    assert(single.filter(pred) =~= single);
                } else {
                    assert(single.filter(pred) =~= Seq::<Permission>::empty());
                    assert(post.filter(pred) =~= pre.filter(pred));
                }
            }
            if self.permissions[k].file_id == file_id {
                r.push(&self.permissions[k]);
                proof {
                    assert(r@.map_values(|p: &Permission| *p) =~= r@.drop_last().map_values(
                        |p: &Permission| *p,
                    ).push(self@[k as int]));
                    assert(r@.map_values(|p: &Permission| *p) =~= self@.subrange(
                        0,
                        k as int + 1,
                    ).filter(|p: Permission| p.file_id == file_id));
                }
            }
            k = k + 1;
        }
        proof {
            assert(self@.subrange(0, n as int) =~= self@);
        }
        r
    }

    /// All grants held by one user, in store order.
    pub fn find_by_user(&self, user_id: u32) -> (r: Vec<&Permission>)
        ensures
            r@.map_values(|p: &Permission| *p) == self@.filter(
                |p: Permission| p.user_id == user_id,
            ),
    {
        let n: usize = self.permissions.len();
        let mut r: Vec<&Permission> = Vec::new();
        let mut k: usize = 0;
        while k < n
            invariant
                k <= n,
                n == self@.len(),
                r@.map_values(|p: &Permission| *p) == self@.subrange(0, k as int).filter(
                    |p: Permission| p.user_id == user_id,
                ),
            decreases n - k,
        {
            proof {
                let pred = |p: Permission| p.user_id == user_id;
                let pre = self@.subrange(0, k as int);
                let post = self@.subrange(0, k as int + 1);
                let single = seq![self@[k as int]];
                assert(post =~= pre + single);
                Seq::filter_distributes_over_add(pre, single, pred);
                reveal_with_fuel(Seq::<_>::filter, 2);
                assert(single.drop_last() =~= Seq::<Permission>::empty());
                if pred(self@[k as int]) {
                    assert(single.filter(pred) =~= single);
                } else {
                    assert(single.filter(pred) =~= Seq::<Permission>::empty());
                    assert(post.filter(pred) =~= pre.filter(pred));
                }
            }
            if self.permissions[k].user_id == user_id {
                r.push(&self.permissions[k]);
                proof {
                    assert(r@.map_values(|p: &Permission| *p) =~= r@.drop_last().map_values(
                        |p: &Permission| *p,
                    ).push(self@[k as int]));
                    assert(r@.map_values(|p: &Permission| *p) =~= self@.subrange(
                        0,
                        k as int + 1,
                    ).filter(|p: Permission| p.user_id == user_id));
                }
            }
            k = k + 1;
        }
        proof {
            assert(self@.subrange(0, n as int) =~= self@);
        }
        r
    }

    /// Whether this user holds a grant on this file.
    pub fn user_has_access(&self, user_id: u32, file_id: u32) -> (r: bool)
        ensures
            r == pair_present(self@, file_id, user_id),
    {
        let n: usize = self.permissions.len();
        let mut k: usize = 0;
        while k < n
            invariant
                k <= n,
                n == self@.len(),
                forall|j: int|
                    0 <= j < k ==> !(self@[j].file_id == file_id && self@[j].user_id == user_id),
            decreases n - k,
        {
            if self.permissions[k].user_id == user_id && self.permissions[k].file_id == file_id {
                return true;
            }
            k = k + 1;
        }
        false
    }

    /// The id of the grant for this (file, user) pair, if one exists.
    pub fn find_pair_id(&self, file_id: u32, user_id: u32) -> (r: Option<u32>)
        ensures
            match r {
                Some(pid) => exists|i: int|
                    0 <= i < self@.len() && self@[i].id == pid && self@[i].file_id == file_id
                        && self@[i].user_id == user_id,
                None => !pair_present(self@, file_id, user_id),
            },
    {
        let n: usize = self.permissions.len();
        let mut k: usize = 0;
        while k < n
            invariant
                k <= n,
                n == self@.len(),
                forall|j: int|
                    0 <= j < k ==> !(self@[j].file_id == file_id && self@[j].user_id == user_id),
            decreases n - k,
        {
            if self.permissions[k].user_id == user_id && self.permissions[k].file_id == file_id {
                return Some(self.permissions[k].id);
            }
            k = k + 1;
        }
        None
    }

    /// Deletes the row with this id, if any.
    pub fn remove(&mut self, id: u32)
        requires
            old(self).wf(),
        ensures
            final(self)@ == old(self)@.filter(|p: Permission| p.id != id),
            final(self).wf(),
            !perm_id_taken(final(self)@, id),
    {
        let n: usize = self.permissions.len();
        let mut k: usize = 0;
        while k < n
            invariant
                k <= n,
                n == self@.len(),
                self@ == old(self)@,
                self.wf(),
                forall|j: int| 0 <= j < k ==> self@[j].id != id,
            decreases n - k,
        {
            if self.permissions[k].id == id {
                let ghost s = self@;
                let ghost ki = k as int;
                proof {
                    assert forall|i: int| 0 <= i < s.len() && i != ki implies (|p: Permission|
                        p.id != id)(s[i]) by {
                        if i < ki {
                            assert(s[i].id != id);
                        } else {
                            assert(s[ki].id != s[i].id);
                        }
                    }
                    lemma_filter_out_one(s, |p: Permission| p.id != id, ki);
                }
                self.permissions.remove(k);
                proof {
                    assert(self@ =~= s.subrange(0, ki) + s.subrange(ki + 1, s.len() as int));
                    assert forall|j: int| 0 <= j < self@.len() implies self@[j] == (if j < ki {
                        s[j]
                    } else {
                        s[j + 1]
                    }) by {}
                    assert forall|i: int, j: int|
                        0 <= i < j < self@.len() implies self@[i].id != self@[j].id && !(self@[i].file_id
                        == self@[j].file_id && self@[i].user_id == self@[j].user_id) by {
                        let a = if i < ki { i } else { i + 1 };
                        let b = if j < ki { j } else { j + 1 };
                        assert(self@[i] == s[a] && self@[j] == s[b]);
                        assert(s[a].id != s[b].id);
                        assert(!(s[a].file_id == s[b].file_id && s[a].user_id == s[b].user_id));
                    }
                    assert forall|j: int| 0 <= j < self@.len() implies self@[j].id != id by {
                        let a = if j < ki { j } else { j + 1 };
                        assert(self@[j] == s[a]);
                        if a != ki {
                            assert(s[a].id != s[ki].id);
                        }
                    }
                }
                return ;
            }
            k = k + 1;
        }
        proof {
            assert(forall|i: int|
                0 <= i < self@.len() ==> (|p: Permission| p.id != id)(#[trigger] self@[i]));
            lemma_filter_all(self@, |p: Permission| p.id != id);
        }
    }

    pub fn count(&self) -> (r: usize)
        ensures
            r == self@.len(),
    {
        self.permissions.len()
    }

    /// Inserts a Shared grant for this pair, the store assigning the
    /// next permission id. Fails only when the id space is exhausted.
    pub fn insert_shared(&mut self, file_id: u32, user_id: u32) -> (r: Result<u32, StoreError>)
        requires
            old(self).wf(),
            !pair_present(old(self)@, file_id, user_id),
        ensures
            match r {
                Ok(id) => {
                    &&& id == max_perm_id(old(self)@) + 1
                    &&& !perm_id_taken(old(self)@, id)
                    &&& final(self)@.len() == old(self)@.len() + 1
                    &&& final(self)@.drop_last() == old(self)@
                    &&& final(self)@.last().id == id
                    &&& final(self)@.last().file_id == file_id
                    &&& final(self)@.last().user_id == user_id
                    &&& final(self)@.last().permission_type is Shared
                },
                Err(_) => final(self)@ == old(self)@ && max_perm_id(old(self)@) == u32::MAX,
            },
            final(self).wf(),
    {
        let n: usize = self.permissions.len();
        let mut m: u32 = 0;
        let mut k: usize = 0;
        while k < n
            invariant
                k <= n,
                n == self@.len(),
                m == max_perm_id(self@.subrange(0, k as int)),
            decreases n - k,
        {
            proof {
                let post = self@.subrange(0, k as int + 1);
                assert(post.drop_last() =~= self@.subrange(0, k as int));
            }
            if self.permissions[k].id > m {
                m = self.permissions[k].id;
            }
            k = k + 1;
        }
        proof {
            assert(self@.subrange(0, n as int) =~= self@);
            lemma_max_perm_id_bounds(self@);
        }
        if m == u32::MAX {
            return Err(StoreError::IdSpaceExhausted);
        }
        let id: u32 = m + 1;
        let permission = Permission {
            id,
            file_id,
            user_id,
            permission_type: PermissionType::Shared,
        };
        self.permissions.push(permission);
        proof {
            assert(self@.drop_last() =~= old(self)@);
        }
        Ok(id)
    }
}

} // verus!
