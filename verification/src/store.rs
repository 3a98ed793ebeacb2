//! The account table: rows with a unique username, a password hash and one
//! score per subject. A row is made once, at registration; later only its
//! scores change, and they only go up.

use crate::text::same_text;
use vstd::prelude::*;
use vstd::seq_lib::{to_multiset_build, to_multiset_insert};
use vstd::string::*;

verus! {

/// A row of the account table.
#[derive(Debug, Clone)]
pub struct User {
    pub username: String,
    pub password: String,
    pub algebra: i32,
    pub chemistry: i32,
    pub geometry: i32,
    pub physics: i32,
}

/// A row as plain values.
pub struct Account {
    pub username: Seq<char>,
    pub password: Seq<char>,
    pub algebra: int,
    pub chemistry: int,
    pub geometry: int,
    pub physics: int,
}

impl View for User {
    type V = Account;

    open spec fn view(&self) -> Account {
        Account {
            username: self.username@,
            password: self.password@,
            algebra: self.algebra as int,
            chemistry: self.chemistry as int,
            geometry: self.geometry as int,
            physics: self.physics as int,
        }
    }
}

/// The subjects in which a score is kept.
#[derive(Clone, Copy, Debug, PartialEq, Eq, Structural)]
pub enum Subject {
    Algebra,
    Chemistry,
    Geometry,
    Physics,
}

/// What looking a username up gave.
#[derive(Debug)]
pub enum Lookup {
    Found(User),
    Missing,
    Unavailable,
}

/// What a lookup gave, as plain values.
pub enum LookupView {
    Found(Account),
    Missing,
    Unavailable,
}

impl View for Lookup {
    type V = LookupView;

    open spec fn view(&self) -> LookupView {
        match self {
            Lookup::Found(user) => LookupView::Found(user@),
            Lookup::Missing => LookupView::Missing,
            Lookup::Unavailable => LookupView::Unavailable,
        }
    }
}

/// What an attempt to make a row gave.
#[derive(Clone, Copy, Debug, PartialEq, Eq, Structural)]
pub enum Creation {
    Created,
    UsernameTaken,
    Unavailable,
}

/// The row of a new account: no score yet.
pub open spec fn fresh_account(username: Seq<char>, password: Seq<char>) -> Account {
    Account { username, password, algebra: 0, chemistry: 0, geometry: 0, physics: 0 }
}

/// The sum of a row's scores, by which the leaderboard is ordered.
pub open spec fn total(row: Account) -> int {
    row.algebra + row.chemistry + row.geometry + row.physics
}

/// A row as others may see it: without the password hash.
pub open spec fn public_row(row: Account) -> Account {
    Account { password: Seq::empty(), ..row }
}

/// The score of a row in a subject.
pub open spec fn score_of(row: Account, subject: Subject) -> int {
    match subject {
        Subject::Algebra => row.algebra,
        Subject::Chemistry => row.chemistry,
        Subject::Geometry => row.geometry,
        Subject::Physics => row.physics,
    }
}

/// A row with one more point in a subject.
pub open spec fn scored(row: Account, subject: Subject) -> Account {
    match subject {
        Subject::Algebra => Account { algebra: row.algebra + 1, ..row },
        Subject::Chemistry => Account { chemistry: row.chemistry + 1, ..row },
        Subject::Geometry => Account { geometry: row.geometry + 1, ..row },
        Subject::Physics => Account { physics: row.physics + 1, ..row },
    }
}

/// The rows of a list of users.
pub open spec fn rows(users: Seq<User>) -> Seq<Account> {
    users.map_values(|user: User| user@)
}

/// No two rows have the same username.
pub open spec fn distinct_usernames(accounts: Seq<Account>) -> bool {
    forall|i: int, j: int|
        0 <= i < j < accounts.len() ==> (#[trigger] accounts[i]).username != (
        #[trigger] accounts[j]).username
}

/// Whether row `i` belongs to `username`.
pub open spec fn is_row_of(accounts: Seq<Account>, username: Seq<char>, i: int) -> bool {
    0 <= i < accounts.len() && accounts[i].username == username
}

/// Whether the table has a row for `username`.
pub open spec fn holds(accounts: Seq<Account>, username: Seq<char>) -> bool {
    exists|i: int| is_row_of(accounts, username, i)
}

/// The place of the row of `username`, where the table has one.
pub open spec fn slot_of(accounts: Seq<Account>, username: Seq<char>) -> int {
    choose|i: int| is_row_of(accounts, username, i)
}

/// The row of `username`, where the table has one.
pub open spec fn row_of(accounts: Seq<Account>, username: Seq<char>) -> Account {
    accounts[slot_of(accounts, username)]
}

/// What a lookup in the table gives.
pub open spec fn found(accounts: Seq<Account>, username: Seq<char>) -> LookupView {
    if holds(accounts, username) {
        LookupView::Found(row_of(accounts, username))
    } else {
        LookupView::Missing
    }
}

/// The table after an attempt to make a row: one more row at the end where
/// the username was free, the same table where it was taken.
pub open spec fn with_account(accounts: Seq<Account>, username: Seq<char>, password: Seq<char>) -> Seq<
    Account,
> {
    if holds(accounts, username) {
        accounts
    } else {
        accounts.push(fresh_account(username, password))
    }
}

/// The table after a point was given: the user's row has one more point in
/// the subject. A user without a row, or a score at its limit, changes nothing.
pub open spec fn with_point(accounts: Seq<Account>, username: Seq<char>, subject: Subject) -> Seq<
    Account,
> {
    if holds(accounts, username) && score_of(row_of(accounts, username), subject) < i32::MAX {
        accounts.update(
            slot_of(accounts, username),
            scored(row_of(accounts, username), subject),
        )
    } else {
        accounts
    }
}

/// Rows in leaderboard order: no row has a higher total than a row before it.
pub open spec fn ranked(board: Seq<Account>) -> bool {
    forall|i: int, j: int|
        0 <= i <= j < board.len() ==> total(#[trigger] board[i]) >= total(#[trigger] board[j])
}

/// Whether `board` lists every row of the table once, without its password
/// hash, in leaderboard order.
pub open spec fn is_ranking(board: Seq<Account>, accounts: Seq<Account>) -> bool {
    &&& ranked(board)
    &&& board.to_multiset() == accounts.map_values(|row: Account| public_row(row)).to_multiset()
}

/// Whether `top` is the head of a ranking of the table, cut off after `limit` rows.
pub open spec fn is_leaderboard(top: Seq<Account>, accounts: Seq<Account>, limit: int) -> bool {
    exists|board: Seq<Account>|
        #[trigger] is_ranking(board, accounts) && top == board.take(
            if limit < board.len() {
                limit
            } else {
                board.len() as int
            },
        )
}

/// In a table without double usernames, the row of a username is the one
/// row that has it.
pub proof fn lemma_row_of(accounts: Seq<Account>, username: Seq<char>, i: int)
    requires
        distinct_usernames(accounts),
        is_row_of(accounts, username, i),
    ensures
        holds(accounts, username),
        slot_of(accounts, username) == i,
        row_of(accounts, username) == accounts[i],
{
    let k = slot_of(accounts, username);
    assert(is_row_of(accounts, username, k));
    if k < i {
        assert(accounts[k].username != accounts[i].username);
    } else if i < k {
        assert(accounts[i].username != accounts[k].username);
    }
}

/// Making a row keeps usernames distinct, and the new row is the row of its username.
pub proof fn lemma_with_account(accounts: Seq<Account>, username: Seq<char>, password: Seq<char>)
    requires
        distinct_usernames(accounts),
    ensures
        distinct_usernames(with_account(accounts, username, password)),
        holds(with_account(accounts, username, password), username),
        !holds(accounts, username) ==> row_of(with_account(accounts, username, password), username)
            == fresh_account(username, password),
        forall|other: Seq<char>|
            other != username ==> found(with_account(accounts, username, password), other)
                == found(accounts, other),
{
    let after = with_account(accounts, username, password);
    if holds(accounts, username) {
    } else {
        let n = accounts.len() as int;
        assert forall|i: int, j: int| 0 <= i < j < after.len() implies (#[trigger] after[i]).username
            != (#[trigger] after[j]).username by {
            if j == n {
                assert(!is_row_of(accounts, username, i));
            } else {
                assert(accounts[i].username != accounts[j].username);
            }
        }
        assert(is_row_of(after, username, n));
        lemma_row_of(after, username, n);
        assert forall|other: Seq<char>| other != username implies found(after, other) == found(
            accounts,
            other,
        ) by {
            if holds(accounts, other) {
                let i = slot_of(accounts, other);
                assert(is_row_of(accounts, other, i));
                assert(is_row_of(after, other, i));
                lemma_row_of(after, other, i);
            } else if holds(after, other) {
                let i = slot_of(after, other);
                assert(is_row_of(after, other, i));
                assert(is_row_of(accounts, other, i));
            }
        }
    }
}

/// Giving a point changes no username and no password hash, and lowers no score.
pub proof fn lemma_with_point(accounts: Seq<Account>, username: Seq<char>, subject: Subject)
    requires
        distinct_usernames(accounts),
    ensures
        distinct_usernames(with_point(accounts, username, subject)),
        with_point(accounts, username, subject).len() == accounts.len(),
        forall|i: int, s: Subject|
            #![trigger score_of(with_point(accounts, username, subject)[i], s)]
            0 <= i < accounts.len() ==> {
                let after = with_point(accounts, username, subject)[i];
                &&& after.username == accounts[i].username
                &&& after.password == accounts[i].password
                &&& score_of(after, s) >= score_of(accounts[i], s)
            },
{
    let after = with_point(accounts, username, subject);
    if holds(accounts, username) {
        let k = slot_of(accounts, username);
        assert(is_row_of(accounts, username, k));
        assert forall|i: int, j: int| 0 <= i < j < after.len() implies (#[trigger] after[i]).username
            != (#[trigger] after[j]).username by {
            assert(accounts[i].username != accounts[j].username);
        }
    }
}

impl User {
    /// The row of a new account.
    pub fn new(username: String, password: String) -> (user: User)
        ensures
            user@ == fresh_account(username@, password@),
    {
        User { username, password, algebra: 0, chemistry: 0, geometry: 0, physics: 0 }
    }

    /// A copy of the row.
    pub fn duplicate(&self) -> (user: User)
        ensures
            user@ == self@,
    {
        User {
            username: self.username.clone(),
            password: self.password.clone(),
            algebra: self.algebra,
            chemistry: self.chemistry,
            geometry: self.geometry,
            physics: self.physics,
        }
    }

    /// A copy of the row without the password hash.
    pub fn public(&self) -> (user: User)
        ensures
            user@ == public_row(self@),
    {
        User {
            username: self.username.clone(),
            password: String::new(),
            algebra: self.algebra,
            chemistry: self.chemistry,
            geometry: self.geometry,
            physics: self.physics,
        }
    }

    /// The sum of the scores.
    pub fn total(&self) -> (sum: i64)
        ensures
            sum == total(self@),
    {
        self.algebra as i64 + self.chemistry as i64 + self.geometry as i64 + self.physics as i64
    }

    /// The score in a subject.
    pub fn score(&self, subject: Subject) -> (points: i32)
        ensures
            points == score_of(self@, subject),
    {
        match subject {
            Subject::Algebra => self.algebra,
            Subject::Chemistry => self.chemistry,
            Subject::Geometry => self.geometry,
            Subject::Physics => self.physics,
        }
    }

    /// A copy of the row with one more point in a subject.
    pub fn with_point(&self, subject: Subject) -> (user: User)
        requires
            score_of(self@, subject) < i32::MAX,
        ensures
            user@ == scored(self@, subject),
    {
        let mut user = self.duplicate();
        match subject {
            Subject::Algebra => {
                user.algebra = user.algebra + 1;
            },
            Subject::Chemistry => {
                user.chemistry = user.chemistry + 1;
            },
            Subject::Geometry => {
                user.geometry = user.geometry + 1;
            },
            Subject::Physics => {
                user.physics = user.physics + 1;
            },
        }
        user
    }
}

/// The subject that a topic name stands for.
pub open spec fn subject_named(topic: Seq<char>) -> Option<Subject> {
    if topic == "algebra"@ {
        Some(Subject::Algebra)
    } else if topic == "chemistry"@ {
        Some(Subject::Chemistry)
    } else if topic == "geometry"@ {
        Some(Subject::Geometry)
    } else if topic == "physics"@ {
        Some(Subject::Physics)
    } else {
        None
    }
}

/// Reads a topic name.
pub fn subject_of(topic: &str) -> (subject: Option<Subject>)
    ensures
        subject == subject_named(topic@),
{
    if same_text(topic, "algebra") {
        Some(Subject::Algebra)
    } else if same_text(topic, "chemistry") {
        Some(Subject::Chemistry)
    } else if same_text(topic, "geometry") {
        Some(Subject::Geometry)
    } else if same_text(topic, "physics") {
        Some(Subject::Physics)
    } else {
        None
    }
}

/// The account table, held in memory.
pub struct AccountStore {
    users: Vec<User>,
}

impl AccountStore {
    /// The rows of the table, oldest first.
    pub closed spec fn view(&self) -> Seq<Account> {
        rows(self.users@)
    }

    /// What every table keeps: no username has two rows.
    #[verifier::type_invariant]
    spec fn usernames_are_distinct(self) -> bool {
        distinct_usernames(rows(self.users@))
    }

    /// A table without rows.
    pub fn new() -> (store: AccountStore)
        ensures
            store@ == Seq::<Account>::empty(),
    {
        let store = AccountStore { users: Vec::new() };
        assert(rows(store.users@) =~= Seq::<Account>::empty());
        store
    }

    /// Number of rows.
    pub fn len(&self) -> (n: usize)
        ensures
            n == self@.len(),
            distinct_usernames(self@),
    {
        proof {
            use_type_invariant(self);
        }
        self.users.len()
    }

    /// The place of the row of `username`.
    fn position(&self, username: &str) -> (place: Option<usize>)
        ensures
            distinct_usernames(self@),
            match place {
                Some(i) => is_row_of(self@, username@, i as int) && i < self.users@.len(),
                None => !holds(self@, username@),
            },
    {
        proof {
            use_type_invariant(self);
        }
        let name = username.to_owned();
        let mut i: usize = 0;
        while i < self.users.len()
            invariant
                i <= self.users@.len(),
                name@ == username@,
                distinct_usernames(rows(self.users@)),
                forall|j: int| 0 <= j < i ==> !is_row_of(rows(self.users@), username@, j),
            decreases self.users@.len() - i,
        {
            if self.users[i].username == name {
                return Some(i);
            }
            i += 1;
        }
        None
    }

    /// Looks a username up and returns a copy of its row.
    pub fn find_by_username(&self, username: &str) -> (r: Lookup)
        ensures
            r@ == found(self@, username@),
            distinct_usernames(self@),
    {
        match self.position(username) {
            Some(i) => {
                proof {
                    lemma_row_of(self@, username@, i as int);
                }
                Lookup::Found(self.users[i].duplicate())
            },
            None => Lookup::Missing,
        }
    }

    /// Makes the row of a new account, unless the username is taken. Check
    /// and insertion are one step: of two attempts for one name the first
    /// makes the row and the second finds the name taken.
    pub fn create_account(&mut self, username: &str, hashed_password: String) -> (r: Creation)
        ensures
            r == if holds(old(self)@, username@) {
                Creation::UsernameTaken
            } else {
                Creation::Created
            },
            final(self)@ == with_account(old(self)@, username@, hashed_password@),
            distinct_usernames(final(self)@),
    {
        proof {
            use_type_invariant(&*self);
            lemma_with_account(self@, username@, hashed_password@);
        }
        match self.position(username) {
            Some(_) => Creation::UsernameTaken,
            None => {
                let user = User::new(username.to_owned(), hashed_password);
                let mut users: Vec<User> = Vec::new();
                core::mem::swap(&mut self.users, &mut users);
                users.push(user);
                assert(rows(users@) =~= rows(old(self).users@).push(user@));
                core::mem::swap(&mut self.users, &mut users);
                Creation::Created
            },
        }
    }

    /// Gives the user one more point in a subject. Nothing changes where the
    /// user has no row or the score is at its limit.
    pub fn update_score(&mut self, username: &str, subject: Subject)
        ensures
            final(self)@ == with_point(old(self)@, username@, subject),
            distinct_usernames(final(self)@),
    {
        proof {
            use_type_invariant(&*self);
            lemma_with_point(self@, username@, subject);
        }
        match self.position(username) {
            Some(i) => {
                proof {
                    lemma_row_of(self@, username@, i as int);
                }
                if self.users[i].score(subject) < i32::MAX {
                    let user = self.users[i].with_point(subject);
                    let mut users: Vec<User> = Vec::new();
                    core::mem::swap(&mut self.users, &mut users);
                    users.set(i, user);
                    assert(rows(users@) =~= rows(old(self).users@).update(i as int, user@));
                    core::mem::swap(&mut self.users, &mut users);
                }
            },
            None => {},
        }
    }

    /// The leaderboard: the rows with the highest totals, highest first,
    /// without password hashes, at most `limit` of them.
    pub fn top_scores(&self, limit: usize) -> (top: Vec<User>)
        ensures
            is_leaderboard(rows(top@), self@, limit as int),
            top@.len() == if limit < self@.len() {
                limit as int
            } else {
                self@.len() as int
            },
    {
        let ghost public = self@.map_values(|row: Account| public_row(row));
        let mut board: Vec<User> = Vec::new();
        let mut i: usize = 0;
        assert(public.take(0) =~= Seq::<Account>::empty());
        assert(rows(board@) =~= Seq::<Account>::empty());
        while i < self.users.len()
            invariant
                i <= self.users@.len(),
                public == rows(self.users@).map_values(|row: Account| public_row(row)),
                ranked(rows(board@)),
                rows(board@).to_multiset() == public.take(i as int).to_multiset(),
                board@.len() == i,
            decreases self.users@.len() - i,
        {
            let row = self.users[i].public();
            let sum = row.total();
            let mut at: usize = 0;
            while at < board.len() && board[at].total() >= sum
                invariant
                    at <= board@.len(),
                    forall|j: int| 0 <= j < at ==> total(#[trigger] rows(board@)[j]) >= sum,
                decreases board@.len() - at,
            {
                at += 1;
            }
            let ghost before = rows(board@);
            board.insert(at, row);
            proof {
                let after = rows(board@);
                assert(after =~= before.insert(at as int, row@));
                to_multiset_insert(before, at as int, row@);
                assert(public.take(i + 1) =~= public.take(i as int).push(row@));
                to_multiset_build(public.take(i as int), row@);
                assert forall|a: int, b: int| 0 <= a <= b < after.len() implies total(
                    #[trigger] after[a],
                ) >= total(#[trigger] after[b]) by {
                    if a < at && b > at {
                        assert(total(before[a]) >= total(before[b - 1]));
                    } else if a < at && b < at {
                        assert(total(before[a]) >= total(before[b]));
                    } else if a > at {
                        assert(total(before[a - 1]) >= total(before[b - 1]));
                    } else if a == at && b > at {
                        assert(total(before[at as int]) >= total(before[b - 1]));
                    }
                }
            }
            i += 1;
        }
        proof {
            assert(public.take(i as int) =~= public);
            assert(is_ranking(rows(board@), self@));
        }
        let ghost full = rows(board@);
        board.truncate(limit);
        proof {
            let cut = if limit < full.len() {
                limit as int
            } else {
                full.len() as int
            };
            assert(rows(board@) =~= full.take(cut));
        }
        board
    }
}

} // verus!
