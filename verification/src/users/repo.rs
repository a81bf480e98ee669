use crate::order::{insert_sorted, lemma_insert_sorted_position, sort_by_lt};
use crate::table::{
    contains_key, find_by_key, idx_of_key, lemma_key_index_props, lemma_push_keeps_unique,
    lemma_push_then_find, lemma_remove_keeps_unique, lemma_remove_unique_key, unique_keys,
};
use crate::text::{lex_lt, opt_view, seq_contains_sub, str_contains_sub, str_lt};
use crate::users::pagination::{sort_column_of, sort_column_spec, SortColumn};
use crate::users::user::{User, UserView};
use vstd::prelude::*;

verus! {

/// A store-level failure of the user table: a unique constraint's
/// rejection, or a missing row on an addressed write.
#[derive(Debug, PartialEq)]
pub enum StoreError {
    UniqueViolation,
    RowNotFound,
}

/// The primary key of a user row.
pub open spec fn user_key() -> spec_fn(UserView) -> u128 {
    |u: UserView| u.id
}

/// The unique e-mail column of a user row.
pub open spec fn user_email_key() -> spec_fn(UserView) -> Seq<char> {
    |u: UserView| u.email
}

/// The mathematical values of a sequence of user rows.
pub open spec fn user_views(s: Seq<User>) -> Seq<UserView> {
    s.map_values(|u: User| u@)
}

/// Missing stamps sort after present ones, as the store's ascending order
/// puts nulls last.
pub open spec fn opt_time_lt(a: Option<i64>, b: Option<i64>) -> bool {
    match (a, b) {
        (Some(x), Some(y)) => x < y,
        (Some(_), None) => true,
        (None, _) => false,
    }
}

/// The strict ordering a sort column induces on rows; rows the column does
/// not distinguish keep their insertion order.
pub open spec fn user_lt(col: SortColumn, a: UserView, b: UserView) -> bool {
    match col {
        SortColumn::Id => a.id < b.id,
        SortColumn::Username => lex_lt(a.username, b.username),
        SortColumn::Email => lex_lt(a.email, b.email),
        SortColumn::Role => lex_lt(a.role, b.role),
        SortColumn::IsActive => !a.is_active && b.is_active,
        SortColumn::CreatedAt => opt_time_lt(a.created_at, b.created_at),
        SortColumn::UpdatedAt => opt_time_lt(a.updated_at, b.updated_at),
    }
}

/// The ordering of one column as a comparison function.
pub open spec fn user_lt_fn(col: SortColumn) -> spec_fn(UserView, UserView) -> bool {
    |a: UserView, b: UserView| user_lt(col, a, b)
}

/// Whether a row passes the optional free-text username filter: an unset
/// filter passes everything, a set one asks for a substring match.
pub open spec fn name_pred(f: Option<Seq<char>>) -> spec_fn(UserView) -> bool {
    |u: UserView| match f {
        None => true,
        Some(n) => seq_contains_sub(u.username, n),
    }
}

/// The page of rows a directory listing selects: the rows passing the
/// filter, sorted by the chosen column with insertion order breaking ties,
/// then the window `[offset, offset+limit)`, clipped to what is there.
pub open spec fn user_page(
    rows: Seq<UserView>,
    f: Option<Seq<char>>,
    col: SortColumn,
    off: int,
    lim: int,
) -> Seq<UserView> {
    let sorted = sort_by_lt(user_lt_fn(col), rows.filter(name_pred(f)));
    let start = if off > sorted.len() {
        sorted.len() as int
    } else {
        off
    };
    let end = if off + lim > sorted.len() {
        sorted.len() as int
    } else {
        off + lim
    };
    sorted.subrange(start, end)
}

/// Each column's order is transitive and asymmetric: a strict order.
pub proof fn lemma_user_lt_props(col: SortColumn)
    ensures
        forall|a: UserView, b: UserView, c: UserView|
            #[trigger] user_lt(col, a, b) && #[trigger] user_lt(col, b, c) ==> user_lt(col, a, c),
        forall|a: UserView, b: UserView| #[trigger] user_lt(col, a, b) ==> !user_lt(col, b, a),
{
    assert forall|a: UserView, b: UserView, c: UserView|
        user_lt(col, a, b) && user_lt(col, b, c) implies user_lt(col, a, c) by {
        match col {
            SortColumn::Username => {
                crate::text::lemma_lex_lt_trans(a.username, b.username, c.username);
            },
            SortColumn::Email => {
                crate::text::lemma_lex_lt_trans(a.email, b.email, c.email);
            },
            SortColumn::Role => {
                crate::text::lemma_lex_lt_trans(a.role, b.role, c.role);
            },
            _ => {},
        }
    }
    assert forall|a: UserView, b: UserView| user_lt(col, a, b) implies !user_lt(col, b, a) by {
        match col {
            SortColumn::Username => {
                crate::text::lemma_lex_lt_asym(a.username, b.username);
            },
            SortColumn::Email => {
                crate::text::lemma_lex_lt_asym(a.email, b.email);
            },
            SortColumn::Role => {
                crate::text::lemma_lex_lt_asym(a.role, b.role);
            },
            _ => {},
        }
    }
}

/// The promised ordering really is an ordering: within one listing page no
/// later row strictly precedes an earlier one under the chosen column.
pub proof fn lemma_user_page_sorted(
    rows: Seq<UserView>,
    f: Option<Seq<char>>,
    col: SortColumn,
    off: int,
    lim: int,
)
    requires
        0 <= off,
        0 <= lim,
    ensures
        crate::order::sorted_by(user_lt_fn(col), user_page(rows, f, col, off, lim)),
{
    lemma_user_lt_props(col);
    let ltf = user_lt_fn(col);
    assert forall|a: UserView, b: UserView, c: UserView|
        #[trigger] ltf(a, b) && #[trigger] ltf(b, c) implies ltf(a, c) by {
        assert(user_lt(col, a, b) && user_lt(col, b, c));
    }
    assert forall|a: UserView, b: UserView| #[trigger] ltf(a, b) implies !ltf(b, a) by {
        assert(user_lt(col, a, b));
    }
    let sorted = sort_by_lt(ltf, rows.filter(name_pred(f)));
    crate::order::lemma_sort_by_lt_sorted(ltf, rows.filter(name_pred(f)));
    let page = user_page(rows, f, col, off, lim);
    let start = if off > sorted.len() {
        sorted.len() as int
    } else {
        off
    };
    let end = if off + lim > sorted.len() {
        sorted.len() as int
    } else {
        off + lim
    };
    assert(page == sorted.subrange(start, end));
    assert forall|i: int, j: int| 0 <= i < j < page.len() implies !ltf(page[j], page[i]) by {
        assert(sorted.subrange(start, end)[i] == sorted[start + i]);
        assert(sorted.subrange(start, end)[j] == sorted[start + j]);
    }
}

/// Whatever the filter keeps it keeps from the sequence itself.
proof fn lemma_filter_keeps_only_rows<T>(s: Seq<T>, pred: spec_fn(T) -> bool)
    ensures
        forall|e: T| #[trigger] s.filter(pred).contains(e) ==> s.contains(e),
    decreases s.len(),
{
    reveal(Seq::filter);
    if s.len() == 0 {
    } else {
        lemma_filter_keeps_only_rows(s.drop_last(), pred);
        let fdl = s.drop_last().filter(pred);
        assert forall|e: T| s.filter(pred).contains(e) implies s.contains(e) by {
            let i = choose|i: int| 0 <= i < s.filter(pred).len() && s.filter(pred)[i] == e;
            if pred(s.last()) && i == s.filter(pred).len() - 1 {
                assert(s[s.len() - 1] == e);
            } else {
                assert(fdl[i] == e);
                assert(fdl.contains(e));
                assert(s.drop_last().contains(e));
                let m = choose|m: int| 0 <= m < s.drop_last().len() && s.drop_last()[m] == e;
                assert(s[m] == e);
            }
        }
    }
}

/// The listing invents nothing: every row a page shows passed the filter
/// and stands in the table.
pub proof fn lemma_user_page_rows_from_table(
    rows: Seq<UserView>,
    f: Option<Seq<char>>,
    col: SortColumn,
    off: int,
    lim: int,
)
    requires
        0 <= off,
        0 <= lim,
    ensures
        forall|k: int|
            0 <= k < user_page(rows, f, col, off, lim).len() ==> name_pred(f)(
                #[trigger] user_page(rows, f, col, off, lim)[k],
            ) && rows.contains(user_page(rows, f, col, off, lim)[k]),
{
    broadcast use vstd::seq_lib::group_to_multiset_ensures;

    let pred = name_pred(f);
    let filtered = rows.filter(pred);
    let ltf = user_lt_fn(col);
    let sorted = sort_by_lt(ltf, filtered);
    crate::order::lemma_sort_by_lt_multiset(ltf, filtered);
    lemma_filter_keeps_only_rows(rows, pred);
    let start = if off > sorted.len() {
        sorted.len() as int
    } else {
        off
    };
    let end = if off + lim > sorted.len() {
        sorted.len() as int
    } else {
        off + lim
    };
    let page = user_page(rows, f, col, off, lim);
    assert(page == sorted.subrange(start, end));
    assert forall|k: int| 0 <= k < page.len() implies pred(#[trigger] page[k]) && rows.contains(
        page[k],
    ) by {
        assert(sorted.subrange(start, end)[k] == sorted[start + k]);
        let e = page[k];
        assert(sorted.contains(e));
        assert(sorted.to_multiset().count(e) > 0);
        assert(filtered.to_multiset().count(e) > 0);
        assert(filtered.contains(e));
        let m = choose|m: int| 0 <= m < filtered.len() && filtered[m] == e;
        Seq::lemma_filter_pred(rows, pred, m);
    }
}

/// A window that starts at or past the whole table is empty whatever the
/// filter keeps: page past the end is an empty answer, not an error.
pub proof fn lemma_user_page_beyond_end_empty(
    rows: Seq<UserView>,
    f: Option<Seq<char>>,
    col: SortColumn,
    off: int,
    lim: int,
)
    requires
        off >= rows.len(),
        0 <= lim,
    ensures
        user_page(rows, f, col, off, lim).len() == 0,
{
    let filtered = rows.filter(name_pred(f));
    Seq::lemma_filter_len(rows, name_pred(f));
    crate::order::lemma_sort_by_lt_len(user_lt_fn(col), filtered);
}

/// Another row than the one at `except` already carries the e-mail.
pub open spec fn email_taken_except(rows: Seq<UserView>, e: Seq<char>, except: int) -> bool {
    exists|j: int| 0 <= j < rows.len() && j != except && rows[j].email == e
}

/// The exclusion index past the end excludes nothing: the predicate then
/// asks whether any row at all carries the e-mail.
pub proof fn lemma_email_taken_all(rows: Seq<UserView>, e: Seq<char>)
    ensures
        email_taken_except(rows, e, rows.len() as int) == contains_key(rows, user_email_key(), e),
{
    if email_taken_except(rows, e, rows.len() as int) {
        let j = choose|j: int| 0 <= j < rows.len() && j != rows.len() && rows[j].email == e;
        assert(user_email_key()(rows[j]) == e);
        assert(contains_key(rows, user_email_key(), e));
    }
    if contains_key(rows, user_email_key(), e) {
        let j = choose|j: int| 0 <= j < rows.len() && user_email_key()(rows[j]) == e;
        assert(rows[j].email == e && j != rows.len());
        assert(email_taken_except(rows, e, rows.len() as int));
    }
}

/// The row a full update produces: the client-settable fields overwritten,
/// the identifier, password hash and creation stamp preserved.
pub open spec fn user_update_applied(stored: UserView, entity: UserView) -> UserView {
    UserView {
        id: stored.id,
        username: entity.username,
        email: entity.email,
        password_hash: stored.password_hash,
        role: entity.role,
        is_active: entity.is_active,
        created_at: stored.created_at,
        updated_at: entity.updated_at,
    }
}

/// The row an activation toggle produces: only the flag and the update
/// stamp change.
pub open spec fn user_with_active(stored: UserView, active: bool, now: i64) -> UserView {
    UserView {
        id: stored.id,
        username: stored.username,
        email: stored.email,
        password_hash: stored.password_hash,
        role: stored.role,
        is_active: active,
        created_at: stored.created_at,
        updated_at: Some(now),
    }
}

/// The comparison of one column, executed on rows.
fn user_lt_exec(col: SortColumn, a: &User, b: &User) -> (r: bool)
    ensures
        r == user_lt(col, a@, b@),
{
    match col {
        SortColumn::Id => a.id < b.id,
        SortColumn::Username => str_lt(a.username.as_str(), b.username.as_str()),
        SortColumn::Email => str_lt(a.email.as_str(), b.email.as_str()),
        SortColumn::Role => str_lt(a.role.as_str(), b.role.as_str()),
        SortColumn::IsActive => !a.is_active && b.is_active,
        SortColumn::CreatedAt => opt_time_lt_exec(a.created_at, b.created_at),
        SortColumn::UpdatedAt => opt_time_lt_exec(a.updated_at, b.updated_at),
    }
}

fn opt_time_lt_exec(a: Option<i64>, b: Option<i64>) -> (r: bool)
    ensures
        r == opt_time_lt(a, b),
{
    match (a, b) {
        (Some(x), Some(y)) => x < y,
        (Some(_), None) => true,
        (None, _) => false,
    }
}

/// The repository owning the user table: every read and write of directory
/// rows goes through it.
pub struct UserRepo {
    rows: Vec<User>,
}

impl View for UserRepo {
    type V = Seq<UserView>;

    closed spec fn view(&self) -> Seq<UserView> {
        user_views(self.rows@)
    }
}

impl UserRepo {
    /// Identifiers and e-mail addresses are unique, as the store's primary
    /// key and unique constraint enforce.
    pub open spec fn wf(&self) -> bool {
        unique_keys(self@, user_key()) && unique_keys(self@, user_email_key())
    }

    /// An empty table.
    pub fn new() -> (r: UserRepo)
        ensures
            r.wf(),
            r@ == Seq::<UserView>::empty(),
    {
        let r = UserRepo { rows: Vec::new() };
        proof {
            assert(r@ =~= Seq::<UserView>::empty());
        }
        r
    }

    /// The index of the row carrying `id`, or the row count when no row
    /// does.
    fn index_of(&self, id: u128) -> (r: usize)
        ensures
            r as int == idx_of_key(self@, user_key(), id),
            r <= self@.len(),
    {
        let n = self.rows.len();
        let mut i: usize = 0;
        while i < n
            invariant
                n == self.rows.len(),
                i <= n,
                forall|j: int| 0 <= j < i ==> #[trigger] self@[j].id != id,
            decreases n - i,
        {
            if self.rows[i].id == id {
                proof {
                    lemma_key_index_props(self@, user_key(), id);
                    assert(self@[i as int] == self.rows@[i as int]@);
                    assert(contains_key(self@, user_key(), id));
                    let w = idx_of_key(self@, user_key(), id);
                    assert(self@[w].id == id);
                    assert(w >= i);
                    assert(w <= i);
                }
                return i;
            }
            i += 1;
        }
        proof {
            lemma_key_index_props(self@, user_key(), id);
            if contains_key(self@, user_key(), id) {
                let w = choose|j: int| 0 <= j < self@.len() && user_key()(self@[j]) == id;
                assert(self@[w].id != id);
            }
        }
        n
    }

    /// Whether any row other than the one at `except` carries the e-mail.
    fn email_taken(&self, email: &String, except: usize) -> (r: bool)
        ensures
            r == email_taken_except(self@, email@, except as int),
    {
        let n = self.rows.len();
        let mut j: usize = 0;
        while j < n
            invariant
                n == self.rows.len(),
                j <= n,
                forall|m: int|
                    0 <= m < j && m != except ==> #[trigger] self@[m].email != email@,
            decreases n - j,
        {
            if j != except && self.rows[j].email == *email {
                proof {
                    assert(self@[j as int].email == email@);
                    assert(email_taken_except(self@, email@, except as int));
                }
                return true;
            }
            j += 1;
        }
        proof {
            if email_taken_except(self@, email@, except as int) {
                let w = choose|m: int|
                    0 <= m < self@.len() && m != except && self@[m].email == email@;
                assert(self@[w].email != email@);
            }
        }
        false
    }

    /// Insert the fully built row the controller hands over. The insert is
    /// refused exactly when the identifier or the e-mail is already taken,
    /// as the store's constraints refuse it.
    pub fn create(&mut self, entity: User) -> (r: Result<User, StoreError>)
        requires
            old(self).wf(),
        ensures
            final(self).wf(),
            r is Ok <==> !contains_key(old(self)@, user_key(), entity.id) && !contains_key(
                old(self)@,
                user_email_key(),
                entity.email@,
            ),
            r matches Ok(u) ==> u@ == entity@ && final(self)@ == old(self)@.push(entity@)
                && contains_key(final(self)@, user_key(), entity.id) && find_by_key(
                final(self)@,
                user_key(),
                entity.id,
            ) == Some(entity@),
            r is Err ==> final(self)@ == old(self)@,
            r matches Err(e) ==> e is UniqueViolation,
    {
        let idx = self.index_of(entity.id);
        proof {
            lemma_key_index_props(self@, user_key(), entity.id);
        }
        if idx < self.rows.len() {
            return Err(StoreError::UniqueViolation);
        }
        let n = self.rows.len();
        let taken = self.email_taken(&entity.email, n);
        proof {
            lemma_email_taken_all(self@, entity.email@);
        }
        if taken {
            return Err(StoreError::UniqueViolation);
        }
        let out = entity.clone();
        proof {
            assert(user_views(self.rows@.push(entity)) =~= self@.push(entity@));
            assert(user_key()(entity@) == entity.id);
            assert(user_email_key()(entity@) == entity.email@);
            lemma_push_keeps_unique(self@, user_key(), entity@);
            lemma_push_keeps_unique(self@, user_email_key(), entity@);
            lemma_push_then_find(self@, user_key(), entity@);
        }
        self.rows.push(entity);
        Ok(out)
    }

    /// The row carrying `id`, if any; a missing row is an ordinary `None`,
    /// not a failure.
    pub fn read(&self, id: u128) -> (r: Result<Option<User>, StoreError>)
        ensures
            r is Ok,
            contains_key(self@, user_key(), id) ==> (r matches Ok(o) && o matches Some(u)
                && find_by_key(self@, user_key(), id) == Some(u@)),
            !contains_key(self@, user_key(), id) ==> (r matches Ok(o) && o is None),
    {
        let idx = self.index_of(id);
        proof {
            lemma_key_index_props(self@, user_key(), id);
        }
        if idx < self.rows.len() {
            Ok(Some(self.rows[idx].clone()))
        } else {
            Ok(None)
        }
    }

    /// Every row in the table, counted independently of any paging.
    pub fn count_total(&self) -> (r: Result<u64, StoreError>)
        ensures
            r matches Ok(c) && c as int == self@.len() as int,
    {
        Ok(self.rows.len() as u64)
    }

    /// The page of rows a listing request selects: filtered by the optional
    /// username substring, ordered by the allow-listed sort column, and
    /// windowed by `offset` and `limit`. Always succeeds; an empty page is
    /// an ordinary answer.
    pub fn read_all(
        &self,
        name: Option<String>,
        limit: u32,
        offset: u32,
        order_by: &str,
    ) -> (r: Result<Vec<User>, StoreError>)
        ensures
            r matches Ok(v) && user_views(v@) == user_page(
                self@,
                opt_view(name),
                sort_column_spec(order_by@),
                offset as int,
                limit as int,
            ),
    {
        let col = sort_column_of(order_by);
        let n = self.rows.len();
        let mut sorted: Vec<User> = Vec::new();
        proof {
            reveal(Seq::filter);
            assert(self.rows@.take(0) =~= Seq::<User>::empty());
            assert(user_views(self.rows@.take(0)) =~= Seq::<UserView>::empty());
            assert(user_views(sorted@) =~= Seq::<UserView>::empty());
        }
        let mut i: usize = 0;
        while i < n
            invariant
                n == self.rows.len(),
                i <= n,
                user_views(sorted@) == sort_by_lt(
                    user_lt_fn(col),
                    user_views(self.rows@.take(i as int)).filter(name_pred(opt_view(name))),
                ),
            decreases n - i,
        {
            let keep = match &name {
                Some(fs) => str_contains_sub(self.rows[i].username.as_str(), fs.as_str()),
                None => true,
            };
            proof {
                reveal(Seq::filter);
                let pred = name_pred(opt_view(name));
                let prev = user_views(self.rows@.take(i as int)).filter(pred);
                let grown = user_views(self.rows@.take(i + 1));
                assert(grown.drop_last() =~= user_views(self.rows@.take(i as int)));
                assert(grown.last() == self.rows@[i as int]@);
                assert(pred(grown.last()) == keep);
                assert(grown.filter(pred) == if keep {
                    prev.push(grown.last())
                } else {
                    prev
                });
            }
            if keep {
                let u = self.rows[i].clone();
                let mut k: usize = 0;
                while k < sorted.len() && !user_lt_exec(col, &u, &sorted[k])
                    invariant
                        k <= sorted.len(),
                        u@ == self.rows@[i as int]@,
                        forall|m: int| 0 <= m < k ==> !user_lt(col, u@, #[trigger] sorted@[m]@),
                    decreases sorted.len() - k,
                {
                    k += 1;
                }
                proof {
                    let svs = user_views(sorted@);
                    assert(forall|m: int| 0 <= m < k ==> svs[m] == sorted@[m]@);
                    assert(forall|m: int|
                        0 <= m < k ==> !user_lt_fn(col)(u@, #[trigger] svs[m]));
                    if (k as int) < svs.len() {
                        assert(svs[k as int] == sorted@[k as int]@);
                        assert(user_lt_fn(col)(u@, svs[k as int]));
                    }
                    lemma_insert_sorted_position(user_lt_fn(col), u@, svs, k as int);
                    assert(user_views(sorted@.insert(k as int, u)) =~= svs.insert(k as int, u@));
                    let pred = name_pred(opt_view(name));
                    let fseq = user_views(self.rows@.take(i + 1)).filter(pred);
                    assert(fseq.drop_last() =~= user_views(self.rows@.take(i as int)).filter(
                        pred,
                    ));
                    assert(fseq.last() == self.rows@[i as int]@);
                    assert(sort_by_lt(user_lt_fn(col), fseq) == insert_sorted(
                        user_lt_fn(col),
                        fseq.last(),
                        sort_by_lt(user_lt_fn(col), fseq.drop_last()),
                    ));
                }
                sorted.insert(k, u);
            }
            i += 1;
        }
        proof {
            assert(self.rows@.take(n as int) =~= self.rows@);
        }
        let slen = sorted.len();
        let start: usize = if offset as usize >= slen {
            slen
        } else {
            offset as usize
        };
        let remaining = slen - start;
        let take_count: usize = if limit as usize > remaining {
            remaining
        } else {
            limit as usize
        };
        let mut out_data: Vec<User> = Vec::new();
        proof {
            assert(user_views(out_data@) =~= user_views(sorted@).subrange(
                start as int,
                start as int,
            ));
        }
        let mut j: usize = 0;
        while j < take_count
            invariant
                j <= take_count,
                sorted@.len() == slen,
                start + take_count <= slen,
                out_data@.len() == j,
                user_views(out_data@) == user_views(sorted@).subrange(
                    start as int,
                    start as int + j,
                ),
            decreases take_count - j,
        {
            out_data.push(sorted[start + j].clone());
            proof {
                assert(user_views(out_data@) =~= user_views(sorted@).subrange(
                    start as int,
                    start as int + j + 1,
                ));
            }
            j += 1;
        }
        proof {
            let svs = user_views(sorted@);
            let off_i = offset as int;
            let lim_i = limit as int;
            let spec_start = if off_i > svs.len() {
                svs.len() as int
            } else {
                off_i
            };
            let spec_end = if off_i + lim_i > svs.len() {
                svs.len() as int
            } else {
                off_i + lim_i
            };
            assert(spec_start == start as int);
            assert(spec_end == start as int + take_count as int);
        }
        Ok(out_data)
    }

    /// Overwrite the client-settable fields of the row carrying `id`,
    /// keeping its identifier, password hash and creation stamp. Fails
    /// exactly when the row is missing or the new e-mail is another row's.
    pub fn update(&mut self, id: u128, entity: User) -> (r: Result<User, StoreError>)
        requires
            old(self).wf(),
        ensures
            final(self).wf(),
            !contains_key(old(self)@, user_key(), id) ==> (r matches Err(e) && e is RowNotFound
                && final(self)@ == old(self)@),
            contains_key(old(self)@, user_key(), id) && email_taken_except(
                old(self)@,
                entity.email@,
                idx_of_key(old(self)@, user_key(), id),
            ) ==> (r matches Err(e) && e is UniqueViolation && final(self)@ == old(self)@),
            contains_key(old(self)@, user_key(), id) && !email_taken_except(
                old(self)@,
                entity.email@,
                idx_of_key(old(self)@, user_key(), id),
            ) ==> (r matches Ok(u) && ({
                let i = idx_of_key(old(self)@, user_key(), id);
                u@ == user_update_applied(old(self)@[i], entity@) && final(self)@ == old(
                    self,
                )@.update(i, u@)
            })),
    {
        let idx = self.index_of(id);
        proof {
            lemma_key_index_props(self@, user_key(), id);
        }
        if idx >= self.rows.len() {
            return Err(StoreError::RowNotFound);
        }
        if self.email_taken(&entity.email, idx) {
            return Err(StoreError::UniqueViolation);
        }
        let ghost old_views = self@;
        let removed = self.rows.remove(idx);
        let merged = User {
            id: removed.id,
            username: entity.username,
            email: entity.email,
            password_hash: removed.password_hash,
            role: entity.role,
            is_active: entity.is_active,
            created_at: removed.created_at,
            updated_at: entity.updated_at,
        };
        let out = merged.clone();
        proof {
            assert(merged@ == user_update_applied(old_views[idx as int], entity@));
            assert(user_views(self.rows@.insert(idx as int, merged)) =~= old_views.update(
                idx as int,
                merged@,
            ));
            let updated = old_views.update(idx as int, merged@);
            assert forall|a: int, b: int| 0 <= a < b < updated.len() implies updated[a].id
                != updated[b].id by {
                assert(updated[a].id == old_views[a].id);
                assert(updated[b].id == old_views[b].id);
            }
            assert forall|a: int, b: int| 0 <= a < b < updated.len() implies updated[a].email
                != updated[b].email by {
                if a != idx && b != idx {
                    assert(updated[a].email == old_views[a].email);
                    assert(updated[b].email == old_views[b].email);
                } else if a == idx {
                    assert(updated[b].email == old_views[b].email);
                } else {
                    assert(updated[a].email == old_views[a].email);
                }
            }
        }
        self.rows.insert(idx, merged);
        Ok(out)
    }

    /// Flip the activation flag of the row carrying `id` and refresh its
    /// update stamp; nothing else changes. Fails exactly when the row is
    /// missing.
    pub fn update_is_active(&mut self, id: u128, is_active: bool, now: i64) -> (r: Result<
        User,
        StoreError,
    >)
        requires
            old(self).wf(),
        ensures
            final(self).wf(),
            !contains_key(old(self)@, user_key(), id) ==> (r matches Err(e) && e is RowNotFound
                && final(self)@ == old(self)@),
            contains_key(old(self)@, user_key(), id) ==> (r matches Ok(u) && ({
                let i = idx_of_key(old(self)@, user_key(), id);
                u@ == user_with_active(old(self)@[i], is_active, now) && final(self)@ == old(
                    self,
                )@.update(i, u@)
            })),
    {
        let idx = self.index_of(id);
        proof {
            lemma_key_index_props(self@, user_key(), id);
        }
        if idx >= self.rows.len() {
            return Err(StoreError::RowNotFound);
        }
        let ghost old_views = self@;
        let removed = self.rows.remove(idx);
        let merged = User {
            id: removed.id,
            username: removed.username,
            email: removed.email,
            password_hash: removed.password_hash,
            role: removed.role,
            is_active: is_active,
            created_at: removed.created_at,
            updated_at: Some(now),
        };
        let out = merged.clone();
        proof {
            assert(merged@ == user_with_active(old_views[idx as int], is_active, now));
            assert(user_views(self.rows@.insert(idx as int, merged)) =~= old_views.update(
                idx as int,
                merged@,
            ));
            let updated = old_views.update(idx as int, merged@);
            assert forall|a: int, b: int| 0 <= a < b < updated.len() implies updated[a].id
                != updated[b].id && updated[a].email != updated[b].email by {
                assert(updated[a].id == old_views[a].id && updated[a].email
                    == old_views[a].email);
                assert(updated[b].id == old_views[b].id && updated[b].email
                    == old_views[b].email);
            }
        }
        self.rows.insert(idx, merged);
        Ok(out)
    }

    /// Remove the row carrying `id` and hand it back; afterwards the
    /// identifier is gone from the table. Fails exactly when no row
    /// carried it.
    pub fn delete(&mut self, id: u128) -> (r: Result<User, StoreError>)
        requires
            old(self).wf(),
        ensures
            final(self).wf(),
            !contains_key(old(self)@, user_key(), id) ==> (r matches Err(e) && e is RowNotFound
                && final(self)@ == old(self)@),
            contains_key(old(self)@, user_key(), id) ==> (r matches Ok(u) && u@ == old(
                self,
            )@[idx_of_key(old(self)@, user_key(), id)] && final(self)@ == old(self)@.remove(
                idx_of_key(old(self)@, user_key(), id),
            ) && !contains_key(final(self)@, user_key(), id)),
    {
        let idx = self.index_of(id);
        proof {
            lemma_key_index_props(self@, user_key(), id);
        }
        if idx >= self.rows.len() {
            return Err(StoreError::RowNotFound);
        }
        proof {
            lemma_remove_unique_key(self@, user_key(), id);
            lemma_remove_keeps_unique(self@, user_email_key(), idx as int);
            assert(user_views(self.rows@.remove(idx as int)) =~= self@.remove(idx as int));
        }
        let removed = self.rows.remove(idx);
        Ok(removed)
    }
}

} // verus!
