use crate::users::repo::{StoreError, UserRepo};
use crate::users::user::User;
use vstd::prelude::*;

verus! {

/// Insertion into a store.
pub trait Create<T> {
    /// The store's internal invariant.
    spec fn inv(&self) -> bool;

    fn create(&mut self, entity: T) -> (r: Result<T, StoreError>)
        requires
            old(self).inv(),
        ensures
            final(self).inv(),
    ;
}

/// Reads from a store: one row by identifier, a filtered and windowed
/// listing, and the total count.
pub trait Read<T, ID> {
    /// The store's internal invariant.
    spec fn inv(&self) -> bool;

    fn read(&self, id: ID) -> (r: Result<Option<T>, StoreError>)
        requires
            self.inv(),
    ;

    fn read_all(&self, name: Option<String>, limit: u32, offset: u32, order_by: &str) -> (r:
        Result<Vec<T>, StoreError>)
        requires
            self.inv(),
    ;

    fn count_total(&self) -> (r: Result<u64, StoreError>)
        requires
            self.inv(),
    ;
}

/// Writes to existing rows: a full update and the activation toggle. The
/// store-assigned instant is handed in as a plain value.
pub trait Update<T, ID> {
    /// The store's internal invariant.
    spec fn inv(&self) -> bool;

    fn update(&mut self, id: ID, entity: T) -> (r: Result<T, StoreError>)
        requires
            old(self).inv(),
        ensures
            final(self).inv(),
    ;

    fn update_is_active(&mut self, id: ID, is_active: bool, now: i64) -> (r: Result<
        T,
        StoreError,
    >)
        requires
            old(self).inv(),
        ensures
            final(self).inv(),
    ;
}

/// Removal from a store.
pub trait Delete<T, ID> {
    /// The store's internal invariant.
    spec fn inv(&self) -> bool;

    fn delete(&mut self, id: ID) -> (r: Result<T, StoreError>)
        requires
            old(self).inv(),
        ensures
            final(self).inv(),
    ;
}

/// The composite repository shape: all four operation families.
pub trait Repository<T, ID>: Read<T, ID> + Create<T> + Update<T, ID> + Delete<T, ID> {

}

impl Create<User> for UserRepo {
    open spec fn inv(&self) -> bool {
        self.wf()
    }

    fn create(&mut self, entity: User) -> (r: Result<User, StoreError>) {
        UserRepo::create(self, entity)
    }
}

impl Read<User, u128> for UserRepo {
    open spec fn inv(&self) -> bool {
        self.wf()
    }

    fn read(&self, id: u128) -> (r: Result<Option<User>, StoreError>) {
        UserRepo::read(self, id)
    }

    fn read_all(&self, name: Option<String>, limit: u32, offset: u32, order_by: &str) -> (r:
        Result<Vec<User>, StoreError>) {
        UserRepo::read_all(self, name, limit, offset, order_by)
    }

    fn count_total(&self) -> (r: Result<u64, StoreError>) {
        UserRepo::count_total(self)
    }
}

impl Update<User, u128> for UserRepo {
    open spec fn inv(&self) -> bool {
        self.wf()
    }

    fn update(&mut self, id: u128, entity: User) -> (r: Result<User, StoreError>) {
        UserRepo::update(self, id, entity)
    }

    fn update_is_active(&mut self, id: u128, is_active: bool, now: i64) -> (r: Result<
        User,
        StoreError,
    >) {
        UserRepo::update_is_active(self, id, is_active, now)
    }
}

impl Delete<User, u128> for UserRepo {
    open spec fn inv(&self) -> bool {
        self.wf()
    }

    fn delete(&mut self, id: u128) -> (r: Result<User, StoreError>) {
        UserRepo::delete(self, id)
    }
}

impl Repository<User, u128> for UserRepo {

}

} // verus!
