//! Small vocabulary types: genders, account kinds and the library's errors.
use vstd::prelude::*;

use crate::text::{decimal, i32_to_string, lemma_parse_decimal, parse_i32_spec, starts_with};

verus! {

/// A person's gender as the school records it.
#[derive(Debug, PartialEq, Eq, Structural)]
pub enum Gender {
    Male,
    Female,
}

impl Clone for Gender {
    fn clone(&self) -> (r: Self)
        ensures
            r == *self,
    {
        match self {
            Gender::Male => Gender::Male,
            Gender::Female => Gender::Female,
        }
    }
}

/// Who an account belongs to, with the person's id where there is one.
#[derive(Debug)]
pub enum AccountType {
    Student(i32),
    Parent(i32),
    Teacher(i32),
    Admin,
    Other(String),
}

/// The content of an [`AccountType`].
pub enum AccountView {
    Student(i32),
    Parent(i32),
    Teacher(i32),
    Admin,
    Other(Seq<char>),
}

impl View for AccountType {
    type V = AccountView;

    open spec fn view(&self) -> AccountView {
        match self {
            AccountType::Student(id) => AccountView::Student(*id),
            AccountType::Parent(id) => AccountView::Parent(*id),
            AccountType::Teacher(id) => AccountView::Teacher(*id),
            AccountType::Admin => AccountView::Admin,
            AccountType::Other(s) => AccountView::Other(s@),
        }
    }
}

impl AccountView {
    /// The human-readable form: the kind of account, a space and the id;
    /// `Admin`; or the name itself.
    pub open spec fn display(self) -> Seq<char> {
        match self {
            AccountView::Student(id) => "Student "@ + decimal(id as int),
            AccountView::Parent(id) => "Parent "@ + decimal(id as int),
            AccountView::Teacher(id) => "Teacher "@ + decimal(id as int),
            AccountView::Admin => "Admin"@,
            AccountView::Other(s) => s,
        }
    }
}

impl Clone for AccountType {
    fn clone(&self) -> (r: Self)
        ensures
            r == *self,
    {
        match self {
            AccountType::Student(id) => AccountType::Student(*id),
            AccountType::Parent(id) => AccountType::Parent(*id),
            AccountType::Teacher(id) => AccountType::Teacher(*id),
            AccountType::Admin => AccountType::Admin,
            AccountType::Other(s) => AccountType::Other(s.clone()),
        }
    }
}

impl AccountType {
    /// The human-readable form of the account, such as `Student 42`.
    pub fn to_string(&self) -> (s: String)
        ensures
            s@ == self@.display(),
    {
        match self {
            AccountType::Student(id) => String::from_str("Student ").concat(i32_to_string(*id).as_str()),
            AccountType::Parent(id) => String::from_str("Parent ").concat(i32_to_string(*id).as_str()),
            AccountType::Teacher(id) => String::from_str("Teacher ").concat(i32_to_string(*id).as_str()),
            AccountType::Admin => String::from_str("Admin"),
            AccountType::Other(s) => s.clone(),
        }
    }
}

/// Names of an account that can be read without running past the end of
/// the name or cutting a character in two: after `Student` and after
/// `Ucitel` one more character is skipped, and it must be a one-byte one.
pub open spec fn account_name_ok(name: Seq<char>) -> bool {
    &&& starts_with(name, "Student"@) ==> name.len() > 7 && (name[7] as u32) < 128
    &&& starts_with(name, "Ucitel"@) ==> name.len() > 6 && (name[6] as u32) < 128
}

/// The account that a name such as `Student-12`, `Rodic-7`, `Ucitel-3` or
/// `Admin` stands for; any other name, or one whose id is no `i32`, is kept
/// as it is.
pub open spec fn account_from_chars(name: Seq<char>) -> AccountView {
    if starts_with(name, "Student"@) {
        match parse_i32_spec(name.skip(8)) {
            Some(id) => AccountView::Student(id),
            None => AccountView::Other(name),
        }
    } else if starts_with(name, "Rodic-"@) {
        match parse_i32_spec(name.skip(6)) {
            Some(id) => AccountView::Parent(id),
            None => AccountView::Other(name),
        }
    } else if starts_with(name, "Ucitel"@) {
        match parse_i32_spec(name.skip(7)) {
            Some(id) => AccountView::Teacher(id),
            None => AccountView::Other(name),
        }
    } else if starts_with(name, "Admin"@) {
        AccountView::Admin
    } else {
        AccountView::Other(name)
    }
}

/// Reading back the human-readable form of a student account, of the admin
/// account, or of a name that starts with none of the account prefixes,
/// gives the same account.
pub proof fn lemma_account_round_trip(a: AccountView)
    requires
        match a {
            AccountView::Student(_) => true,
            AccountView::Admin => true,
            AccountView::Other(s) => !starts_with(s, "Student"@) && !starts_with(s, "Rodic-"@)
                && !starts_with(s, "Ucitel"@) && !starts_with(s, "Admin"@),
            _ => false,
        },
    ensures
        account_name_ok(a.display()),
        account_from_chars(a.display()) == a,
{
    reveal_strlit("Student");
    reveal_strlit("Student ");
    reveal_strlit("Rodic-");
    reveal_strlit("Ucitel");
    reveal_strlit("Admin");
    match a {
        AccountView::Student(n) => {
            let d = a.display();
            lemma_parse_decimal(n);
            assert(d.take(7) =~= "Student"@);
            assert(d.skip(8) =~= decimal(n as int));
            assert(d[7] == ' ');
        },
        AccountView::Admin => {
            let d = a.display();
            assert(d.take(5) =~= "Admin"@);
            assert(!starts_with(d, "Student"@));
            assert(!starts_with(d, "Rodic-"@));
            assert(!starts_with(d, "Ucitel"@));
        },
        _ => {},
    }
}

/// What can go wrong when talking to the school's server or reading its data.
#[derive(Debug, PartialEq, Eq, Structural)]
pub enum Error {
    LoginFailed,
    NotLoggedIn,
    NoResponse,
    ParseError,
    NotFound,
}

impl Clone for Error {
    fn clone(&self) -> (r: Self)
        ensures
            r == *self,
    {
        match self {
            Error::LoginFailed => Error::LoginFailed,
            Error::NotLoggedIn => Error::NotLoggedIn,
            Error::NoResponse => Error::NoResponse,
            Error::ParseError => Error::ParseError,
            Error::NotFound => Error::NotFound,
        }
    }
}

} // verus!
