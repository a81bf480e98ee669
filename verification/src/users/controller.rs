//! The compute part of the directory's request handlers: existence checks,
//! repository calls, error classification, and DTO mapping. Decoding the
//! HTTP request and building the HTTP response happen outside the library,
//! as does drawing the fresh identifier and instant, which arrive here
//! through the library's own sources.

use crate::clock::now_micros;
use crate::ids::fresh_id;
use crate::table::{contains_key, find_by_key, idx_of_key, lemma_key_index_props};
use crate::text::opt_view;
use crate::users::errors::{AppError, CustomResult};
use crate::users::pagination::{
    filter_of, limit_or_default, order_by_or_default, page_or_default, PaginatedResponse,
    Pagination, sort_column_spec,
};
use crate::users::repo::{
    email_taken_except, user_email_key, user_key, user_page, user_views, UserRepo,
};
use crate::users::user::{
    CreateUserDto, DeletedUserDto, UpdateUserDto, User, user_dto_of, UserDto, UserDtoView,
    UserIsActiveDto, UserView,
};
use crate::users::validate::ValidatedJson;
use vstd::prelude::*;
use vstd::string::StringExecFns;

verus! {

/// The mathematical values of a sequence of user DTOs.
pub open spec fn user_dto_views(s: Seq<UserDto>) -> Seq<UserDtoView> {
    s.map_values(|d: UserDto| d@)
}

/// The wire projection of a sequence of rows.
pub open spec fn user_dtos_of(s: Seq<UserView>) -> Seq<UserDtoView> {
    s.map_values(|u: UserView| user_dto_of(u))
}

pub struct UserController;

impl UserController {
    /// The row carrying `id`, or the service's not-found error.
    pub fn check_if_user_exists(user_repo: &UserRepo, id: u128) -> (r: CustomResult<User>)
        ensures
            contains_key(user_repo@, user_key(), id) ==> (r matches Ok(u) && find_by_key(
                user_repo@,
                user_key(),
                id,
            ) == Some(u@)),
            !contains_key(user_repo@, user_key(), id) ==> (r matches Err(e) && e is UserNotFound),
    {
        match user_repo.read(id) {
            Ok(Some(user)) => Ok(user),
            Ok(None) => Err(AppError::UserNotFound),
            Err(_) => Err(AppError::DatabaseConnectionFailure),
        }
    }

    /// One page of the directory as DTOs. The raw page below one and a
    /// window offset beyond the store's reach are rejected; everything
    /// else answers, an empty page included.
    pub fn get_all_users(user_repo: &UserRepo, pagination: Pagination) -> (r: CustomResult<
        PaginatedResponse<UserDto>,
    >)
        ensures
            ({
                let page = page_or_default(pagination.page);
                let limit = limit_or_default(pagination.limit);
                let f = filter_of(opt_view(pagination.username));
                let ob = order_by_or_default(opt_view(pagination.order_by));
                &&& page == 0 ==> (r matches Err(e) && e matches AppError::RequestPayloadNotValid(
                    m,
                ) && m@ == "page must be at least 1"@)
                &&& page >= 1 && (page - 1) * limit > 0xffff_ffff ==> (r matches Err(e)
                    && e matches AppError::RequestPayloadNotValid(m) && m@
                    == "page is out of range"@)
                &&& page >= 1 && (page - 1) * limit <= 0xffff_ffff ==> (r matches Ok(resp)
                    && resp.page == page && resp.limit == limit && resp.total as int
                    == user_repo@.len() as int && resp.order_by@ == ob && user_dto_views(
                    resp.data@,
                ) == user_dtos_of(
                    user_page(
                        user_repo@,
                        f,
                        sort_column_spec(ob),
                        (page - 1) * limit,
                        limit as int,
                    ),
                ))
            }),
    {
        let page = pagination.page.unwrap_or(1);
        if page == 0 {
            return Err(
                AppError::RequestPayloadNotValid(String::from_str("page must be at least 1")),
            );
        }
        let limit = pagination.limit.unwrap_or(3);
        proof {
            assert(((page - 1) as u64) as int * ((limit as u64) as int) <= 0xffff_ffff
                * 0xffff_ffff) by (nonlinear_arith)
                requires
                    0 <= ((page - 1) as u64) as int <= 0xffff_ffff,
                    0 <= ((limit as u64) as int) <= 0xffff_ffff,
            ;
        }
        let off64: u64 = ((page - 1) as u64) * (limit as u64);
        if off64 > 0xffff_ffffu64 {
            return Err(AppError::RequestPayloadNotValid(String::from_str("page is out of range")));
        }
        let offset = off64 as u32;
        let username = pagination.username.unwrap_or(String::new());
        let username_option = if username.as_str().is_empty() {
            None
        } else {
            Some(username)
        };
        let order_by = pagination.order_by.unwrap_or(String::from_str("id"));

        let users = match user_repo.read_all(username_option, limit, offset, order_by.as_str()) {
            Ok(users) => users,
            Err(_) => {
                return Err(AppError::NoUsersFound);
            },
        };
        let total_count = match user_repo.count_total() {
            Ok(count) => count,
            Err(_) => 0,
        };

        let mut users_dto: Vec<UserDto> = Vec::new();
        let n = users.len();
        proof {
            assert(user_dto_views(users_dto@) =~= user_dtos_of(user_views(users@).take(0)));
        }
        let mut i: usize = 0;
        while i < n
            invariant
                n == users.len(),
                i <= n,
                users_dto@.len() == i,
                user_dto_views(users_dto@) == user_dtos_of(user_views(users@).take(i as int)),
            decreases n - i,
        {
            let d = users[i].into_dto();
            let ghost pre = users_dto@;
            users_dto.push(d);
            proof {
                let vs = user_views(users@);
                assert forall|j: int| 0 <= j < i + 1 implies user_dto_views(users_dto@)[j]
                    == user_dtos_of(vs.take(i + 1))[j] by {
                    assert(vs.take(i + 1)[j] == vs[j]);
                    if j < i {
                        assert(users_dto@[j] == pre[j]);
                        assert(user_dto_views(pre)[j] == user_dtos_of(vs.take(i as int))[j]);
                        assert(vs.take(i as int)[j] == vs[j]);
                    } else {
                        assert(users_dto@[j] == d);
                        assert(d@ == user_dto_of(users@[i as int]@));
                        assert(vs[i as int] == users@[i as int]@);
                    }
                }
                assert(user_dto_views(users_dto@) =~= user_dtos_of(vs.take(i + 1)));
            }
            i += 1;
        }
        proof {
            assert(user_views(users@).take(n as int) =~= user_views(users@));
        }
        Ok(
            PaginatedResponse {
                data: users_dto,
                limit: limit,
                page: page,
                order_by: order_by,
                total: total_count,
            },
        )
    }

    /// The DTO of the row carrying `id`, or the not-found error; the DTO
    /// carries no password hash.
    pub fn get_user_by_id(user_repo: &UserRepo, id: u128) -> (r: CustomResult<UserDto>)
        ensures
            contains_key(user_repo@, user_key(), id) ==> (r matches Ok(d) && find_by_key(
                user_repo@,
                user_key(),
                id,
            ) matches Some(u) && d@ == user_dto_of(u)),
            !contains_key(user_repo@, user_key(), id) ==> (r matches Err(e) && e is UserNotFound),
    {
        match Self::check_if_user_exists(user_repo, id) {
            Ok(user) => Ok(user.into_dto()),
            Err(err) => Err(err),
        }
    }

    /// Build a row from a validated creation payload under a fresh
    /// identifier and the current instant, and insert it. The row is
    /// active from the start, its creation and update stamps are equal,
    /// and on success the identifier was not in the table before.
    pub fn create_user(
        user_repo: &mut UserRepo,
        create_user_dto: ValidatedJson<CreateUserDto>,
    ) -> (r: CustomResult<UserDto>)
        requires
            old(user_repo).wf(),
        ensures
            final(user_repo).wf(),
            r matches Ok(d) ==> final(user_repo)@.len() == old(user_repo)@.len() + 1 && ({
                let u = final(user_repo)@.last();
                final(user_repo)@ == old(user_repo)@.push(u) && !contains_key(
                    old(user_repo)@,
                    user_key(),
                    u.id,
                ) && !contains_key(old(user_repo)@, user_email_key(), u.email) && u.username
                    == create_user_dto.0.username@ && u.email == create_user_dto.0.email@
                    && u.role == create_user_dto.0.role@ && u.password_hash
                    == create_user_dto.0.password_hash@ && u.is_active == true && u.created_at
                    is Some && u.created_at == u.updated_at && d@ == user_dto_of(u)
            }),
            r matches Err(e) ==> e is UserCouldNotBeCreated && final(user_repo)@ == old(
                user_repo,
            )@,
            contains_key(old(user_repo)@, user_email_key(), create_user_dto.0.email@) ==> r
                is Err,
    {
        let id = fresh_id();
        let now = now_micros();
        let inner = create_user_dto.into_inner();
        let new_user = User {
            id: id,
            username: inner.username,
            email: inner.email,
            password_hash: inner.password_hash,
            role: inner.role,
            is_active: true,
            created_at: Some(now),
            updated_at: Some(now),
        };
        match user_repo.create(new_user) {
            Ok(user) => Ok(user.into_dto()),
            Err(_) => Err(AppError::UserCouldNotBeCreated),
        }
    }

    /// Overwrite the client-settable fields of the row carrying `id`,
    /// keeping its password hash and creation stamp, and refresh its
    /// update stamp.
    pub fn update_user(
        user_repo: &mut UserRepo,
        id: u128,
        update_user_dto: ValidatedJson<UpdateUserDto>,
    ) -> (r: CustomResult<UserDto>)
        requires
            old(user_repo).wf(),
        ensures
            final(user_repo).wf(),
            !contains_key(old(user_repo)@, user_key(), id) ==> (r matches Err(e) && e
                is UserNotFound && final(user_repo)@ == old(user_repo)@),
            contains_key(old(user_repo)@, user_key(), id) && email_taken_except(
                old(user_repo)@,
                update_user_dto.0.email@,
                idx_of_key(old(user_repo)@, user_key(), id),
            ) ==> (r matches Err(e) && e is UserCouldNotBeUpdated && final(user_repo)@ == old(
                user_repo,
            )@),
            contains_key(old(user_repo)@, user_key(), id) && !email_taken_except(
                old(user_repo)@,
                update_user_dto.0.email@,
                idx_of_key(old(user_repo)@, user_key(), id),
            ) ==> (r matches Ok(d) && ({
                let i = idx_of_key(old(user_repo)@, user_key(), id);
                let stored = old(user_repo)@[i];
                let u = final(user_repo)@[i];
                final(user_repo)@ == old(user_repo)@.update(i, u) && d@ == user_dto_of(u) && u.id
                    == stored.id && u.username == update_user_dto.0.username@ && u.email
                    == update_user_dto.0.email@ && u.role == update_user_dto.0.role@
                    && u.is_active == update_user_dto.0.is_active && u.password_hash
                    == stored.password_hash && u.created_at == stored.created_at && u.updated_at
                    is Some
            })),
    {
        proof {
            lemma_key_index_props(old(user_repo)@, user_key(), id);
        }
        let existing_user = match Self::check_if_user_exists(user_repo, id) {
            Ok(user) => user,
            Err(err) => {
                return Err(err);
            },
        };
        let now = now_micros();
        let inner = update_user_dto.into_inner();
        let update_user = User {
            id: existing_user.id,
            username: inner.username,
            email: inner.email,
            password_hash: existing_user.password_hash,
            role: inner.role,
            is_active: inner.is_active,
            created_at: existing_user.created_at,
            updated_at: Some(now),
        };
        match user_repo.update(existing_user.id, update_user) {
            Ok(user) => Ok(user.into_dto()),
            Err(_) => Err(AppError::UserCouldNotBeUpdated),
        }
    }

    /// Remove the row carrying `id` and answer with its identifying
    /// fields; afterwards the identifier is gone from the table.
    pub fn delete_user(user_repo: &mut UserRepo, id: u128) -> (r: CustomResult<DeletedUserDto>)
        requires
            old(user_repo).wf(),
        ensures
            final(user_repo).wf(),
            !contains_key(old(user_repo)@, user_key(), id) ==> (r matches Err(e) && e
                is UserNotFound && final(user_repo)@ == old(user_repo)@),
            contains_key(old(user_repo)@, user_key(), id) ==> (r matches Ok(d) && ({
                let i = idx_of_key(old(user_repo)@, user_key(), id);
                d.id == old(user_repo)@[i].id && d.username@ == old(user_repo)@[i].username
                    && d.email@ == old(user_repo)@[i].email && final(user_repo)@ == old(
                    user_repo,
                )@.remove(i) && !contains_key(final(user_repo)@, user_key(), id)
            })),
    {
        let found_user = Self::check_if_user_exists(user_repo, id);
        let _existing_user = match found_user {
            Ok(user) => user,
            Err(err) => {
                return Err(err);
            },
        };
        match user_repo.delete(id) {
            Ok(user) => Ok(user.to_deleted_dto()),
            Err(_) => Err(AppError::UserCouldNotBeDeleted),
        }
    }

    /// Flip the activation flag of the row carrying `id` and refresh its
    /// update stamp; every other field stays as it was.
    pub fn update_user_is_active(
        user_repo: &mut UserRepo,
        id: u128,
        user_is_active_dto: UserIsActiveDto,
    ) -> (r: CustomResult<UserDto>)
        requires
            old(user_repo).wf(),
        ensures
            final(user_repo).wf(),
            !contains_key(old(user_repo)@, user_key(), id) ==> (r matches Err(e) && e
                is UserNotFound && final(user_repo)@ == old(user_repo)@),
            contains_key(old(user_repo)@, user_key(), id) ==> (r matches Ok(d) && ({
                let i = idx_of_key(old(user_repo)@, user_key(), id);
                let stored = old(user_repo)@[i];
                let u = final(user_repo)@[i];
                final(user_repo)@ == old(user_repo)@.update(i, u) && d@ == user_dto_of(u) && u.id
                    == stored.id && u.username == stored.username && u.email == stored.email
                    && u.role == stored.role && u.password_hash == stored.password_hash
                    && u.is_active == user_is_active_dto.is_active && u.created_at
                    == stored.created_at && u.updated_at is Some
            })),
    {
        proof {
            lemma_key_index_props(old(user_repo)@, user_key(), id);
        }
        let found_user = Self::check_if_user_exists(user_repo, id);
        let _existing_user = match found_user {
            Ok(user) => user,
            Err(err) => {
                return Err(err);
            },
        };
        let now = now_micros();
        match user_repo.update_is_active(id, user_is_active_dto.is_active, now) {
            Ok(user) => Ok(user.into_dto()),
            Err(_) => Err(AppError::UserCouldNotBeUpdated),
        }
    }
}

} // verus!
