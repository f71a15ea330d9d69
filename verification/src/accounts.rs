//! Unlocking the accounts that a run was asked to unlock: each account is
//! tried with the passwords in turn until one fits, and an account that no
//! password fits ends the startup.

use vstd::prelude::*;
use vstd::string::*;
use crate::text::joined;

verus! {

/// What is due when accounts are unlocked.
#[derive(Clone, Copy, Debug, PartialEq, Eq, Structural)]
pub enum UnlockStep {
    /// Try to unlock this account with this password, both by their place.
    Try { account: usize, password: usize },
    /// No password fits the account at this place.
    NoPassword { account: usize },
    /// Every account is unlocked.
    Done,
}

/// Walks the accounts and, for each, the passwords.
#[derive(Clone, Copy, Debug, PartialEq, Eq, Structural)]
pub struct Unlocker {
    /// How many accounts are to be unlocked.
    pub accounts: usize,
    /// How many passwords there are to try.
    pub passwords: usize,
    /// The account that is being unlocked.
    pub account: usize,
    /// The password that is tried next on it.
    pub password: usize,
}

impl Unlocker {
    /// What is due.
    pub open spec fn spec_current(self) -> UnlockStep {
        if self.account >= self.accounts {
            UnlockStep::Done
        } else if self.password >= self.passwords {
            UnlockStep::NoPassword { account: self.account }
        } else {
            UnlockStep::Try { account: self.account, password: self.password }
        }
    }

    /// The state once the attempt that is due has been made: on to the next
    /// account where it unlocked, on to the next password where it did not.
    /// Where no attempt is due, nothing changes.
    pub open spec fn after(self, unlocked: bool) -> Unlocker {
        if !(self.spec_current() is Try) {
            self
        } else if unlocked {
            Unlocker { account: (self.account + 1) as usize, password: 0, ..self }
        } else {
            Unlocker { password: (self.password + 1) as usize, ..self }
        }
    }

    /// Starts with the first account and the first password.
    pub fn new(accounts: usize, passwords: usize) -> (u: Unlocker)
        ensures
            u == (Unlocker { accounts, passwords, account: 0, password: 0 }),
    {
        Unlocker { accounts, passwords, account: 0, password: 0 }
    }

    /// What is due.
    #[verifier::when_used_as_spec(spec_current)]
    pub fn current(self) -> (step: UnlockStep)
        ensures
            step == self.spec_current(),
    {
        if self.account >= self.accounts {
            UnlockStep::Done
        } else if self.password >= self.passwords {
            UnlockStep::NoPassword { account: self.account }
        } else {
            UnlockStep::Try { account: self.account, password: self.password }
        }
    }

    /// Takes in whether the attempt that was due unlocked the account.
    pub fn record(&mut self, unlocked: bool)
        ensures
            *final(self) == old(self).after(unlocked),
    {
        if self.account < self.accounts && self.password < self.passwords {
            if unlocked {
                self.account = self.account + 1;
                self.password = 0;
            } else {
                self.password = self.password + 1;
            }
        }
    }
}

/// An account to unlock, with what each password does to it.
#[derive(Clone, Debug)]
pub struct Account {
    /// The account as it is shown to the operator.
    pub name: String,
    /// For each password, by its place, whether it unlocks the account; a
    /// password beyond the end does not.
    pub fits: Vec<bool>,
}

/// Whether password `password` unlocks account `account`.
pub open spec fn fits(table: Seq<Account>, account: int, password: int) -> bool {
    &&& 0 <= account < table.len()
    &&& 0 <= password < table[account].fits.len()
    &&& table[account].fits[password]
}

/// Whether some password before `passwords` unlocks account `account`.
pub open spec fn unlockable(table: Seq<Account>, account: int, passwords: int) -> bool {
    exists|password: int| 0 <= password < passwords && fits(table, account, password)
}

/// The text that tells the operator that no password fits `account`.
pub open spec fn no_password_text(account: Seq<char>) -> Seq<char> {
    "No password found to unlock account "@ + account
        + ". Make sure valid password is present in files passed using `--password`."@
}

/// Unlocks as an unlocker says, against a table that tells which password
/// fits which account, and gives the first account that no password fits.
pub fn first_locked(table: &Vec<Account>, passwords: usize) -> (locked: Option<usize>)
    ensures
        locked is None ==> forall|a: int|
            0 <= a < table.len() ==> unlockable(table@, a, passwords as int),
        locked is Some ==> locked->Some_0 < table.len() && !unlockable(
            table@,
            locked->Some_0 as int,
            passwords as int,
        ) && forall|a: int| 0 <= a < locked->Some_0 ==> unlockable(table@, a, passwords as int),
{
    let mut walk = Unlocker::new(table.len(), passwords);
    loop
        invariant
            walk.accounts == table.len(),
            walk.passwords == passwords,
            walk.account <= table.len(),
            walk.password <= passwords,
            forall|a: int| 0 <= a < walk.account ==> unlockable(table@, a, passwords as int),
            forall|p: int| 0 <= p < walk.password ==> !fits(table@, walk.account as int, p),
        decreases table.len() - walk.account, passwords - walk.password,
    {
        match walk.current() {
            UnlockStep::Done => {
                return None;
            },
            UnlockStep::NoPassword { account } => {
                return Some(account);
            },
            UnlockStep::Try { account, password } => {
                let row = &table[account].fits;
                let unlocked = password < row.len() && row[password];
                proof {
                    if unlocked {
                        assert(fits(table@, account as int, password as int));
                    }
                }
                walk.record(unlocked);
            },
        }
    }
}

/// What the caller is told when no password fits `account`.
pub fn no_password_error(account: &str) -> (text: String)
    ensures
        text@ == no_password_text(account@),
{
    let mut text = joined("No password found to unlock account ", account);
    text.append(". Make sure valid password is present in files passed using `--password`.");
    text
}

/// Unlocks every account of `table` with the first of the `passwords`
/// passwords that fits it. Fails at the first account that none fits, and
/// names it.
pub fn prepare_account_provider(table: &Vec<Account>, passwords: usize) -> (r: Result<(), String>)
    ensures
        r is Ok <==> forall|a: int|
            0 <= a < table.len() ==> unlockable(table@, a, passwords as int),
        r is Err ==> exists|a: int|
            0 <= a < table.len() && !unlockable(table@, a, passwords as int) && (forall|b: int|
                0 <= b < a ==> unlockable(table@, b, passwords as int)) && r->Err_0@
                == no_password_text(#[trigger] table[a].name@),
{
    match first_locked(table, passwords) {
        None => Ok(()),
        Some(account) => Err(no_password_error(table[account].name.as_str())),
    }
}

/// What the caller is told when the directory of the keys cannot be opened.
pub fn keys_directory_error(reason: &str) -> (text: String)
    ensures
        text@ == "Could not open keys directory: "@ + reason@,
{
    joined("Could not open keys directory: ", reason)
}

} // verus!
