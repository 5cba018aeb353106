//! Replies of the account service.
use vstd::prelude::*;
use super::wire::{client_error, PulseError};
use crate::text::{concat3, copy_str};

verus! {

/// An account as the service gives it.
pub struct Account {
    pub id: String,
    pub phone: String,
}

/// What creating an account gives.
pub struct CreateAccountOutput {
    pub id: String,
}

/// What asking for an account gives.
pub struct GetAccountOutput {
    pub id: String,
    pub phone: String,
}

/// What creating an account gives, given the account of the reply.
pub fn created_account(account: Option<Account>) -> (r: Result<CreateAccountOutput, PulseError>)
    ensures
        match account {
            Some(a) => r matches Ok(out) && out.id@ == a.id@,
            None => r matches Err(e) && e.is_client("CreateAccount returned empty account"@),
        },
{
    match account {
        Some(a) => Ok(CreateAccountOutput { id: a.id }),
        None => Err(client_error("CreateAccount returned empty account")),
    }
}

/// What asking for an account gives, given the account of the reply.
pub fn found_account(account: Option<Account>) -> (r: Result<GetAccountOutput, PulseError>)
    ensures
        match account {
            Some(a) => r matches Ok(out) && out.id@ == a.id@ && out.phone@ == a.phone@,
            None => r matches Err(e) && e.is_client("GetAccount returned empty account"@),
        },
{
    match account {
        Some(a) => Ok(GetAccountOutput { id: a.id, phone: a.phone }),
        None => Err(client_error("GetAccount returned empty account")),
    }
}

/// That the service answered with a status, given by its code and in words.
pub fn map_grpc_status(prefix: &str, code: &str, status: &str) -> (e: PulseError)
    ensures
        e matches PulseError::GrpcStatus { code: c, message } && c@ == code@ && message@ == prefix@
            + ": "@ + status@,
{
    PulseError::GrpcStatus { code: copy_str(code), message: concat3(prefix, ": ", status) }
}

} // verus!
