//! Verified core of a referral-code sign-up service: user records, invite-code
//! generation, the referral map that is pushed to listeners, the responses the
//! HTTP layer sends back, and the mapping from database failures to replies.

pub mod models;
pub mod errors;
pub mod invite;
pub mod referrals;
pub mod handlers;
