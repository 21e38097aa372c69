use vstd::prelude::*;

use crate::issue::{IssueError, MailOutbox};
use crate::ledger::OtpLedger;
use crate::otp::str_eq;

verus! {

/// Why a user could not be found or created.
#[derive(Clone, Copy, Debug, PartialEq, Eq, Structural)]
pub enum UserError {
    UserNotFound,
    UserAlreadyExist,
    /// The store could not be read or written.
    Storage,
}

/// A user account as the store sees it.
pub struct UserView {
    pub id: int,
    pub name: Seq<char>,
    pub email: Seq<char>,
}

/// A user account.
#[derive(Debug)]
pub struct User {
    pub id: i32,
    pub name: String,
    pub email: String,
}

impl View for User {
    type V = UserView;

    open spec fn view(&self) -> UserView {
        UserView { id: self.id as int, name: self.name@, email: self.email@ }
    }
}

/// What a sign-up request carries.
pub struct NewUser {
    pub name: String,
    pub email: String,
}

/// What a login request carries.
pub struct LoginUser {
    pub email: String,
}

/// What a passcode check carries.
pub struct EnteredOtp {
    pub email: String,
    pub otp: String,
}

/// The index of the account for `email`, or -1.
pub open spec fn index_of_email(users: Seq<UserView>, email: Seq<char>) -> int
    decreases users.len(),
{
    if users.len() == 0 {
        -1
    } else if users.last().email == email {
        users.len() - 1
    } else {
        index_of_email(users.drop_last(), email)
    }
}

/// The user accounts: each address at most once, and ids `1, 2, ...` in
/// order of creation.
pub struct UserStore {
    users: Vec<User>,
}

impl View for UserStore {
    type V = Seq<UserView>;

    closed spec fn view(&self) -> Seq<UserView> {
        self.users@.map_values(|u: User| u@)
    }
}

impl UserStore {
    pub open spec fn wf(&self) -> bool {
        &&& forall|i: int, j: int|
            0 <= i < j < self@.len() ==> (#[trigger] self@[i]).email != (#[trigger] self@[j]).email
        &&& forall|i: int| 0 <= i < self@.len() ==> (#[trigger] self@[i]).id == i + 1
    }

    /// An empty store.
    pub fn new() -> (r: UserStore)
        ensures
            r.wf(),
            r@ == Seq::<UserView>::empty(),
    {
        UserStore { users: Vec::new() }
    }

    /// The number of accounts.
    pub fn len(&self) -> (r: usize)
        ensures
            r == self@.len(),
    {
        self.users.len()
    }
}

proof fn lemma_index_of_email(users: Seq<UserView>, email: Seq<char>)
    ensures
        -1 <= index_of_email(users, email) < users.len(),
        index_of_email(users, email) >= 0 ==> users[index_of_email(users, email)].email == email,
        index_of_email(users, email) == -1 ==> forall|j: int|
            0 <= j < users.len() ==> (#[trigger] users[j]).email != email,
    decreases users.len(),
{
    if users.len() > 0 {
        let init = users.drop_last();
        lemma_index_of_email(init, email);
        if users.last().email != email {
            let k = index_of_email(init, email);
            if k >= 0 {
                assert(users[k] == init[k]);
            } else {
                assert forall|j: int| 0 <= j < users.len() implies (#[trigger] users[j]).email != email by {
                    if j < users.len() - 1 {
                        assert(users[j] == init[j]);
                    }
                }
            }
        }
    }
}

proof fn lemma_index_skip(users: Seq<UserView>, email: Seq<char>, i: int)
    requires
        0 <= i <= users.len(),
        forall|j: int| i <= j < users.len() ==> (#[trigger] users[j]).email != email,
    ensures
        index_of_email(users, email) == index_of_email(users.subrange(0, i), email),
    decreases users.len(),
{
    if users.len() == i {
        assert(users.subrange(0, i) =~= users);
    } else {
        lemma_index_skip(users.drop_last(), email, i);
        assert(users.drop_last().subrange(0, i) =~= users.subrange(0, i));
    }
}

impl User {
    /// A copy of this account.
    pub fn duplicate(&self) -> (r: User)
        ensures
            r@ == self@,
    {
        User { id: self.id, name: self.name.clone(), email: self.email.clone() }
    }

    /// The account registered with `email`.
    pub fn get_user_by_email(store: &UserStore, email: &str) -> (r: Result<User, UserError>)
        ensures
            index_of_email(store@, email@) >= 0 ==> (r matches Ok(u) && u@ == store@[index_of_email(
                store@,
                email@,
            )]),
            index_of_email(store@, email@) < 0 ==> r == Err::<User, UserError>(UserError::UserNotFound),
    {
        let mut i: usize = store.users.len();
        while i > 0
            invariant
                i <= store@.len(),
                forall|j: int| i <= j < store@.len() ==> (#[trigger] store@[j]).email != email@,
            decreases i,
        {
            i = i - 1;
            if str_eq(store.users[i].email.as_str(), email) {
                proof {
                    lemma_index_skip(store@, email@, i + 1);
                    assert(store@.subrange(0, i + 1).last() == store@[i as int]);
                }
                return Ok(store.users[i].duplicate());
            }
        }
        proof {
            lemma_index_skip(store@, email@, 0);
        }
        Err(UserError::UserNotFound)
    }

    /// Issues a passcode to this user's address for `used_for`, as
    /// `OtpLedger::issue` does.
    pub fn send_otp(&self, used_for: &str, ledger: &mut OtpLedger, outbox: &mut MailOutbox) -> (r: Result<
        (),
        IssueError,
    >)
        ensures
            exists|code: int|
                1000 <= code < 10000 && final(outbox)@ == old(outbox)@.push(
                    crate::issue::otp_mail(self@.email, used_for@, code),
                ) && (r, final(ledger)@) == crate::issue::issue_outcome(
                    old(ledger)@,
                    self@.email,
                    used_for@,
                    code,
                    !old(outbox).refuses(),
                ),
            final(outbox).refuses() == old(outbox).refuses(),
    {
        let email = self.email.as_str();
        let r = ledger.issue(email, used_for, outbox);
        proof {
            let code = choose|code: int|
                1000 <= code < 10000 && final(outbox)@ == old(outbox)@.push(
                    crate::issue::otp_mail(email@, used_for@, code),
                ) && (r, final(ledger)@) == crate::issue::issue_outcome(
                    old(ledger)@,
                    email@,
                    used_for@,
                    code,
                    !old(outbox).refuses(),
                );
            assert(email@ == self@.email);
        }
        r
    }
}

impl NewUser {
    /// Creates the account, unless one exists for the address already. The
    /// new account gets the next id.
    pub fn add(&self, store: &mut UserStore) -> (r: Result<User, UserError>)
        requires
            old(store).wf(),
        ensures
            final(store).wf(),
            index_of_email(old(store)@, self.email@) >= 0 ==> r == Err::<User, UserError>(
                UserError::UserAlreadyExist,
            ) && final(store)@ == old(store)@,
            index_of_email(old(store)@, self.email@) < 0 && old(store)@.len() < i32::MAX ==> (r matches Ok(
                u,
            ) && u@ == (UserView { id: (old(store)@.len() + 1) as int, name: self.name@, email: self.email@ })
                && final(store)@ == old(store)@.push(u@)),
            index_of_email(old(store)@, self.email@) < 0 && old(store)@.len() >= i32::MAX ==> r
                == Err::<User, UserError>(UserError::Storage) && final(store)@ == old(store)@,
    {
        match User::get_user_by_email(store, self.email.as_str()) {
            Ok(_) => Err(UserError::UserAlreadyExist),
            Err(_) => {
                proof {
                    lemma_index_of_email(store@, self.email@);
                }
                let n = store.users.len();
                if n >= i32::MAX as usize {
                    return Err(UserError::Storage);
                }
                let user = User { id: (n + 1) as i32, name: self.name.clone(), email: self.email.clone() };
                let ghost before = store@;
                store.users.push(user.duplicate());
                assert(store@ =~= before.push(user@));
                Ok(user)
            },
        }
    }
}

} // verus!
