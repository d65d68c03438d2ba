//! Records the service stores and the envelope of every JSON answer it sends.

use vstd::prelude::*;

verus! {

/// A user as stored in the database.
#[derive(Clone, Debug)]
pub struct User {
    pub id: i32,
    pub username: String,
    pub referral_code: String,
    pub personal_invite_code: String,
}

/// The fields a client sends to create a user.
pub struct UserForCreate {
    pub username: String,
    pub referral_code: String,
}

/// The fields a client sends to log in.
pub struct LoginPayload {
    pub username: String,
}

/// The payload carried by a [`CustomResponse`].
pub enum CustomResponseData<T> {
    Item(T),
}

/// The envelope of every successful JSON answer.
pub struct CustomResponse<T> {
    pub status: bool,
    pub message: Option<String>,
    pub data: Option<CustomResponseData<T>>,
}

impl<T> CustomResponse<T> {
    /// Builds a response from its three parts, unchanged.
    pub fn new(
        status: bool,
        message: Option<String>,
        data: Option<CustomResponseData<T>>,
    ) -> (r: Self)
        ensures
            r.status == status,
            r.message == message,
            r.data == data,
    {
        CustomResponse { status, message, data }
    }
}

} // verus!
