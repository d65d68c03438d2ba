//! What the sign-up and login endpoints answer once the database has replied.

use vstd::prelude::*;
use vstd::string::*;
use crate::errors::{map_err, reply_for, DbFailure, ErrorReply};
use crate::models::{CustomResponse, CustomResponseData, User};

verus! {

/// `r` is a successful answer with message `message` that carries `user`.
pub open spec fn answers_with_user(r: CustomResponse<User>, user: User, message: Seq<char>) -> bool {
    &&& r.status
    &&& r.message matches Some(m) && m@ == message
    &&& r.data == Some(CustomResponseData::Item(user))
}

/// The successful answer of a request that produced `user`.
pub fn user_response(user: User, message: &str) -> (r: CustomResponse<User>)
    ensures
        answers_with_user(r, user, message@),
        r.status,
        r.message matches Some(m) && m@ == message@,
        r.data matches Some(CustomResponseData::Item(u)) && u.id == user.id && u.username@
            == user.username@ && u.referral_code@ == user.referral_code@ && u.personal_invite_code@
            == user.personal_invite_code@,
{
    CustomResponse::new(true, Some(String::from_str(message)), Some(CustomResponseData::Item(user)))
}

/// The answer of the sign-up endpoint, given what saving the new user gave:
/// the stored user under "Registration successful", or the reply for the
/// database failure.
pub fn signup_outcome(saved: Result<User, DbFailure>) -> (r: Result<CustomResponse<User>, ErrorReply>)
    ensures
        match saved {
            Ok(user) => r matches Ok(resp) && answers_with_user(resp, user, "Registration successful"@),
            Err(e) => r matches Err(reply) && (reply.status, reply.body@) == reply_for(e),
        },
        saved is Ok <==> r is Ok,
        forall|user: User|
            saved == Ok::<User, DbFailure>(user) ==> {
                &&& r is Ok
                &&& r->Ok_0.status
                &&& r->Ok_0.message is Some
                &&& r->Ok_0.message->Some_0@ == "Registration successful"@
                &&& r->Ok_0.data is Some
                &&& r->Ok_0.data->Some_0->Item_0.id == user.id
                &&& r->Ok_0.data->Some_0->Item_0.username@ == user.username@
                &&& r->Ok_0.data->Some_0->Item_0.referral_code@ == user.referral_code@
                &&& r->Ok_0.data->Some_0->Item_0.personal_invite_code@ == user.personal_invite_code@
            },
{
    match saved {
        Ok(user) => Ok(user_response(user, "Registration successful")),
        Err(e) => Err(map_err(e)),
    }
}

/// The answer of the login endpoint, given what looking the user up gave:
/// the user under "Login successful", or the reply for the database failure
/// (a 404 when no user has that name).
pub fn login_outcome(found: Result<User, DbFailure>) -> (r: Result<CustomResponse<User>, ErrorReply>)
    ensures
        match found {
            Ok(user) => r matches Ok(resp) && answers_with_user(resp, user, "Login successful"@),
            Err(e) => r matches Err(reply) && (reply.status, reply.body@) == reply_for(e),
        },
        found is Ok <==> r is Ok,
        forall|user: User|
            found == Ok::<User, DbFailure>(user) ==> {
                &&& r is Ok
                &&& r->Ok_0.status
                &&& r->Ok_0.message is Some
                &&& r->Ok_0.message->Some_0@ == "Login successful"@
                &&& r->Ok_0.data is Some
                &&& r->Ok_0.data->Some_0->Item_0.id == user.id
                &&& r->Ok_0.data->Some_0->Item_0.username@ == user.username@
                &&& r->Ok_0.data->Some_0->Item_0.referral_code@ == user.referral_code@
                &&& r->Ok_0.data->Some_0->Item_0.personal_invite_code@ == user.personal_invite_code@
            },
{
    match found {
        Ok(user) => Ok(user_response(user, "Login successful")),
        Err(e) => Err(map_err(e)),
    }
}

} // verus!
