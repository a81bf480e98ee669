use crate::dto_traits::IntoDto;
use vstd::prelude::*;

verus! {

/// A directory row. Identifiers are carried as the 128-bit value of the
/// store's UUID and timestamps as microseconds since the Unix epoch; the
/// stamps are optional, as the store's columns are.
#[derive(Debug, PartialEq)]
pub struct User {
    pub id: u128,
    pub username: String,
    pub email: String,
    pub password_hash: String,
    pub role: String,
    pub is_active: bool,
    pub created_at: Option<i64>,
    pub updated_at: Option<i64>,
}

/// The mathematical value of a user row.
pub ghost struct UserView {
    pub id: u128,
    pub username: Seq<char>,
    pub email: Seq<char>,
    pub password_hash: Seq<char>,
    pub role: Seq<char>,
    pub is_active: bool,
    pub created_at: Option<i64>,
    pub updated_at: Option<i64>,
}

impl View for User {
    type V = UserView;

    open spec fn view(&self) -> UserView {
        UserView {
            id: self.id,
            username: self.username@,
            email: self.email@,
            password_hash: self.password_hash@,
            role: self.role@,
            is_active: self.is_active,
            created_at: self.created_at,
            updated_at: self.updated_at,
        }
    }
}

impl Clone for User {
    fn clone(&self) -> (r: Self)
        ensures
            r@ == self@,
    {
        User {
            id: self.id,
            username: self.username.clone(),
            email: self.email.clone(),
            password_hash: self.password_hash.clone(),
            role: self.role.clone(),
            is_active: self.is_active,
            created_at: self.created_at,
            updated_at: self.updated_at,
        }
    }
}

/// The wire representation of a user: every row field except the password
/// hash, which never leaves the service.
#[derive(Debug, PartialEq)]
pub struct UserDto {
    pub id: u128,
    pub username: String,
    pub email: String,
    pub role: String,
    pub is_active: bool,
    pub created_at: Option<i64>,
    pub updated_at: Option<i64>,
}

/// The mathematical value of a user DTO.
pub ghost struct UserDtoView {
    pub id: u128,
    pub username: Seq<char>,
    pub email: Seq<char>,
    pub role: Seq<char>,
    pub is_active: bool,
    pub created_at: Option<i64>,
    pub updated_at: Option<i64>,
}

impl View for UserDto {
    type V = UserDtoView;

    open spec fn view(&self) -> UserDtoView {
        UserDtoView {
            id: self.id,
            username: self.username@,
            email: self.email@,
            role: self.role@,
            is_active: self.is_active,
            created_at: self.created_at,
            updated_at: self.updated_at,
        }
    }
}

/// The wire projection of a user row: the password hash is dropped, every
/// other field passes through unchanged.
pub open spec fn user_dto_of(u: UserView) -> UserDtoView {
    UserDtoView {
        id: u.id,
        username: u.username,
        email: u.email,
        role: u.role,
        is_active: u.is_active,
        created_at: u.created_at,
        updated_at: u.updated_at,
    }
}

impl User {
    /// The DTO of this row, with the password hash left behind.
    pub fn into_dto(&self) -> (r: UserDto)
        ensures
            r@ == user_dto_of(self@),
    {
        UserDto {
            id: self.id,
            username: self.username.clone(),
            email: self.email.clone(),
            role: self.role.clone(),
            is_active: self.is_active,
            created_at: self.created_at,
            updated_at: self.updated_at,
        }
    }
}

impl IntoDto<UserDto> for User {
    fn into_dto(&self) -> UserDto {
        User::into_dto(self)
    }
}

impl User {
    /// The deletion answer for this row: its identifying fields.
    pub fn to_deleted_dto(&self) -> (r: DeletedUserDto)
        ensures
            r.id == self@.id,
            r.username@ == self@.username,
            r.email@ == self@.email,
    {
        DeletedUserDto {
            id: self.id,
            username: self.username.clone(),
            email: self.email.clone(),
        }
    }
}

impl IntoDto<DeletedUserDto> for User {
    fn into_dto(&self) -> DeletedUserDto {
        User::to_deleted_dto(self)
    }
}

/// The wire projection carries nothing of the password hash: two rows that
/// differ only there project to identical DTOs.
pub proof fn lemma_dto_hides_password_hash(a: UserView, b: UserView)
    requires
        a.id == b.id,
        a.username == b.username,
        a.email == b.email,
        a.role == b.role,
        a.is_active == b.is_active,
        a.created_at == b.created_at,
        a.updated_at == b.updated_at,
    ensures
        user_dto_of(a) == user_dto_of(b),
{
}

/// The client's creation payload; the handler validates it before any row
/// is built from it.
#[derive(Debug)]
pub struct CreateUserDto {
    pub username: String,
    pub email: String,
    pub role: String,
    pub password_hash: String,
}

/// The client's full-update payload: the row's client-settable fields.
#[derive(Debug)]
pub struct UpdateUserDto {
    pub id: u128,
    pub username: String,
    pub email: String,
    pub role: String,
    pub is_active: bool,
    pub updated_at: Option<i64>,
}

/// The body of an activation toggle request.
#[derive(Debug)]
pub struct UserIsActiveDto {
    pub is_active: bool,
}

/// A deletion request addressed by identifier.
#[derive(Debug)]
pub struct DeleteUserDto {
    pub id: u128,
    pub username: String,
    pub email: String,
}

/// The answer to a deletion: the identifying fields of the removed row.
#[derive(Debug, PartialEq)]
pub struct DeletedUserDto {
    pub id: u128,
    pub username: String,
    pub email: String,
}

} // verus!
