use vstd::prelude::*;

verus! {

/// Email and password credentials of a login request.
pub struct AuthData {
    pub email: String,
    pub password: String,
}

/// The request payload asking for a password-reset link.
pub struct AskPassData {
    pub email: String,
}

/// The request payload completing a password reset.
pub struct ResetPassData {
    pub hash: String,
    pub new_password: String,
}

/// The request payload confirming an email address.
pub struct EmailConfirmationData {
    pub hash: String,
}

/// A Steam session ticket together with the application it was issued for.
pub struct SteamAuthData {
    pub app_id: u64,
    pub auth_ticket: String,
}

/// The request payload that changes an unconfirmed account's email address.
pub struct UpdateEmailConfirmationData {
    pub email: String,
    pub auth: SteamAuthData,
}

} // verus!
