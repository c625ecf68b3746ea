//! Core data records of the file-sharing backend: users, files,
//! permissions and refresh-token rows, together with their small
//! validation methods.

use crate::text::{before_dot, ends_with_spec, prefix_before_dot, str_ends_with};
use vstd::prelude::*;

verus! {

/// Errors raised by user-record validation.
#[derive(Debug)]
pub enum UserError {
    InvalidUsername(String),
    EmptyPassword,
    UsernameTooShort,
}

/// A registered account: identity plus stored credential material.
/// The password is kept only as a salted one-way hash.
pub struct User {
    pub id: u32,
    pub username: String,
    pub password_hash: String,
    pub created_at: i64,
    pub active: bool,
    pub email: Option<String>,
}

impl User {
    pub fn new(id: u32, username: String, password_hash: String) -> (u: User)
        ensures
            u.id == id,
            u.username@ == username@,
            u.password_hash@ == password_hash@,
            u.active,
            u.email is None,
    {
        User {
            id,
            username,
            password_hash,
            created_at: 1699564800,
            active: true,
            email: None,
        }
    }

    pub fn is_active(&self) -> (r: bool)
        ensures
            r == self.active,
    {
        self.active
    }

    pub fn deactivate(&mut self)
        ensures
            !final(self).active,
            final(self).id == old(self).id,
            final(self).username@ == old(self).username@,
            final(self).password_hash@ == old(self).password_hash@,
            final(self).created_at == old(self).created_at,
            final(self).email == old(self).email,
    {
        self.active = false;
    }

    pub fn activate(&mut self)
        ensures
            final(self).active,
            final(self).id == old(self).id,
            final(self).username@ == old(self).username@,
            final(self).password_hash@ == old(self).password_hash@,
            final(self).created_at == old(self).created_at,
            final(self).email == old(self).email,
    {
        self.active = true;
    }

    /// A username passes when it is non-empty and at least three
    /// characters long.
    pub fn validate_username(&self) -> (r: Result<(), UserError>)
        ensures
            r is Ok <==> self.username@.len() >= 3,
            self.username@.len() == 0 ==> (r matches Err(e) && e is InvalidUsername),
            0 < self.username@.len() < 3 ==> (r matches Err(e) && e is UsernameTooShort),
    {
        if self.username.as_str().unicode_len() == 0 {
            return Err(UserError::InvalidUsername(String::from_str(
                "Username cannot be empty",
            )));
        }
        if self.username.as_str().unicode_len() < 3 {
            return Err(UserError::UsernameTooShort);
        }
        Ok(())
    }

    /// A credential record must carry a stored hash.
    pub fn validate_password(&self) -> (r: Result<(), UserError>)
        ensures
            r is Ok <==> self.password_hash@.len() > 0,
            r is Err ==> (r matches Err(e) && e is EmptyPassword),
    {
        if self.password_hash.as_str().unicode_len() == 0 {
            return Err(UserError::EmptyPassword);
        }
        Ok(())
    }

    pub fn username_length(&self) -> (r: usize)
        ensures
            r == self.username@.len(),
    {
        self.username.as_str().unicode_len()
    }

    pub fn set_email(&mut self, email: String)
        ensures
            final(self).email matches Some(e) && e@ == email@,
            final(self).id == old(self).id,
            final(self).username@ == old(self).username@,
            final(self).password_hash@ == old(self).password_hash@,
            final(self).active == old(self).active,
            final(self).created_at == old(self).created_at,
    {
        self.email = Some(email);
    }

    pub fn get_email(&self) -> (r: Option<&String>)
        ensures
            match r {
                Some(e) => self.email matches Some(o) && e@ == o@,
                None => self.email is None,
            },
    {
        self.email.as_ref()
    }

    pub fn update_password(&mut self, new_password_hash: String)
        ensures
            final(self).password_hash@ == new_password_hash@,
            final(self).id == old(self).id,
            final(self).username@ == old(self).username@,
            final(self).active == old(self).active,
            final(self).created_at == old(self).created_at,
            final(self).email == old(self).email,
    {
        self.password_hash = new_password_hash;
    }
}

/// Errors raised by file-record validation.
#[derive(Debug)]
pub enum FileError {
    ExceedsSizeLimit(u64),
    InvalidExtension(String),
    EmptyFileName,
}

/// A stored file's metadata row. The backing bytes live in object
/// storage under a path derived from `id`; `owner_id` never changes
/// after creation.
pub struct File {
    pub id: u32,
    pub filename: String,
    pub size: u64,
    pub owner_id: u32,
    pub is_public: bool,
    pub uploaded_at: i64,
    pub description: Option<String>,
}

impl File {
    pub fn new(id: u32, filename: String, size: u64, owner_id: u32) -> (f: File)
        ensures
            f.id == id,
            f.filename@ == filename@,
            f.size == size,
            f.owner_id == owner_id,
            !f.is_public,
            f.description is None,
    {
        File {
            id,
            filename,
            size,
            owner_id,
            is_public: false,
            uploaded_at: 11699564900,
            description: None,
        }
    }

    pub fn is_owned_by(&self, user_id: u32) -> (r: bool)
        ensures
            r == (self.owner_id == user_id),
    {
        self.owner_id == user_id
    }

    pub fn size_in_kb(&self) -> (r: u64)
        ensures
            r == self.size / 1000,
    {
        self.size / 1000
    }

    pub fn validate_size(&self, max_size: u64) -> (r: Result<(), FileError>)
        ensures
            r is Ok <==> self.size <= max_size,
            r matches Err(e) ==> e matches FileError::ExceedsSizeLimit(s) && s == self.size,
    {
        if self.size > max_size {
            return Err(FileError::ExceedsSizeLimit(self.size));
        }
        Ok(())
    }

    /// Accepts the filename exactly when it ends in one of the
    /// allowed extensions.
    pub fn validate_extension(&self, allowed: &[&str]) -> (r: Result<(), FileError>)
        ensures
            r is Ok <==> exists|k: int|
                0 <= k < allowed@.len() && ends_with_spec(self.filename@, allowed@[k]@),
            r matches Err(e) ==> e matches FileError::InvalidExtension(f) && f@ == self.filename@,
    {
        let n: usize = allowed.len();
        let mut k: usize = 0;
        while k < n
            invariant
                k <= n,
                n == allowed@.len(),
                forall|j: int| 0 <= j < k ==> !ends_with_spec(self.filename@, allowed@[j]@),
            decreases n - k,
        {
            if str_ends_with(self.filename.as_str(), allowed[k]) {
                return Ok(());
            }
            k = k + 1;
        }
        Err(FileError::InvalidExtension(self.filename.clone()))
    }

    pub fn validate_filename(&self) -> (r: Result<(), FileError>)
        ensures
            r is Ok <==> self.filename@.len() > 0,
            r is Err ==> (r matches Err(e) && e is EmptyFileName),
    {
        if self.filename.as_str().unicode_len() == 0 {
            return Err(FileError::EmptyFileName);
        }
        Ok(())
    }

    /// The filename up to its first '.'.
    pub fn filename_without_extension(&self) -> (r: &str)
        ensures
            r@ == before_dot(self.filename@),
    {
        prefix_before_dot(self.filename.as_str())
    }

    pub fn set_description(&mut self, desc: String)
        ensures
            final(self).description matches Some(d) && d@ == desc@,
            final(self).id == old(self).id,
            final(self).filename@ == old(self).filename@,
            final(self).size == old(self).size,
            final(self).owner_id == old(self).owner_id,
            final(self).is_public == old(self).is_public,
            final(self).uploaded_at == old(self).uploaded_at,
    {
        self.description = Some(desc);
    }

    pub fn get_description(&self) -> (r: Option<&String>)
        ensures
            match r {
                Some(d) => self.description matches Some(o) && d@ == o@,
                None => self.description is None,
            },
    {
        self.description.as_ref()
    }
}

/// The tier of access a permission row grants.
pub enum PermissionType {
    Owner,
    Shared,
    Public,
}

/// A grant of access to one file for one user. At most one row
/// exists per (file, user) pair.
pub struct Permission {
    pub id: u32,
    pub file_id: u32,
    pub user_id: u32,
    pub permission_type: PermissionType,
}

impl Permission {
    pub fn new(id: u32, file_id: u32, user_id: u32, permission_type: PermissionType) -> (p:
        Permission)
        ensures
            p.id == id,
            p.file_id == file_id,
            p.user_id == user_id,
            p.permission_type == permission_type,
    {
        Permission { id, file_id, user_id, permission_type }
    }

    pub fn is_owner(&self) -> (r: bool)
        ensures
            r == (self.permission_type is Owner),
    {
        matches!(self.permission_type, PermissionType::Owner)
    }
}

/// One link of a refresh-session rotation chain. A token is live
/// while `revoked_at` is `None`; rotation revokes it and records its
/// unique successor in `replaced_by`.
pub struct RefreshToken {
    pub token: String,
    pub user_id: u32,
    pub created_at: u64,
    pub revoked_at: Option<u64>,
    pub replaced_by: Option<String>,
}

impl RefreshToken {
    /// Liveness of a refresh token: not yet revoked.
    pub open spec fn is_live(&self) -> bool {
        self.revoked_at is None
    }
}

} // verus!
