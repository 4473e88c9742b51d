use vstd::prelude::*;

use crate::auth::SteamAuthData;

verus! {

/// A registered user account. Timestamps are kept as Unix seconds.
pub struct User {
    pub id: i32,
    pub email: String,
    pub nickname: String,
    pub hash: String,
    pub reset_password_hash: Option<String>,
    pub password_hash_expire_at: Option<i64>,
    pub created_at: i64,
    pub steam_id: String,
    pub first_name: String,
    pub last_name: String,
    pub birth_date: i64,
    pub email_confirmation_required: bool,
}

/// The mathematical value of a user account.
pub struct UserView {
    pub id: i32,
    pub email: Seq<char>,
    pub nickname: Seq<char>,
    pub hash: Seq<char>,
    pub reset_password_hash: Option<Seq<char>>,
    pub password_hash_expire_at: Option<i64>,
    pub created_at: i64,
    pub steam_id: Seq<char>,
    pub first_name: Seq<char>,
    pub last_name: Seq<char>,
    pub birth_date: i64,
    pub email_confirmation_required: bool,
}

impl View for User {
    type V = UserView;

    open spec fn view(&self) -> UserView {
        UserView {
            id: self.id,
            email: self.email@,
            nickname: self.nickname@,
            hash: self.hash@,
            reset_password_hash: match self.reset_password_hash {
                Some(ref h) => Some(h@),
                None => None,
            },
            password_hash_expire_at: self.password_hash_expire_at,
            created_at: self.created_at,
            steam_id: self.steam_id@,
            first_name: self.first_name@,
            last_name: self.last_name@,
            birth_date: self.birth_date,
            email_confirmation_required: self.email_confirmation_required,
        }
    }
}

impl Clone for User {
    fn clone(&self) -> (r: Self)
        ensures
            r@ == self@,
    {
        User {
            id: self.id,
            email: self.email.clone(),
            nickname: self.nickname.clone(),
            hash: self.hash.clone(),
            reset_password_hash: match &self.reset_password_hash {
                Some(h) => Some(h.clone()),
                None => None,
            },
            password_hash_expire_at: self.password_hash_expire_at,
            created_at: self.created_at,
            steam_id: self.steam_id.clone(),
            first_name: self.first_name.clone(),
            last_name: self.last_name.clone(),
            birth_date: self.birth_date,
            email_confirmation_required: self.email_confirmation_required,
        }
    }
}

impl User {
    /// A user may log in once their email address is confirmed.
    pub fn can_login(&self) -> (r: bool)
        ensures
            r == !self.email_confirmation_required,
    {
        !self.email_confirmation_required
    }
}

/// The request payload that creates a user account.
pub struct CreateUserData {
    pub email: String,
    pub nickname: String,
    pub first_name: String,
    pub last_name: String,
    pub birth_date: i64,
    pub auth: SteamAuthData,
}

/// The field values a new user is inserted with.
pub struct UserForm {
    pub email: String,
    pub nickname: String,
    pub steam_id: String,
    pub first_name: String,
    pub last_name: String,
    pub hash: String,
    pub birth_date: i64,
}

impl UserForm {
    /// Carries a creation request over into an insertable user form. The
    /// password hash is a placeholder until the account is initialised.
    pub fn new_from_data(create_data: &CreateUserData, steam_id: &str) -> (r: Self)
        ensures
            r.email@ == create_data.email@,
            r.nickname@ == create_data.nickname@,
            r.steam_id@ == steam_id@,
            r.first_name@ == create_data.first_name@,
            r.last_name@ == create_data.last_name@,
            r.hash@ == "Waiting for init"@,
            r.birth_date == create_data.birth_date,
    {
        UserForm {
            email: create_data.email.clone(),
            nickname: create_data.nickname.clone(),
            steam_id: String::from_str(steam_id),
            first_name: create_data.first_name.clone(),
            last_name: create_data.last_name.clone(),
            hash: String::from_str("Waiting for init"),
            birth_date: create_data.birth_date,
        }
    }
}

} // verus!
