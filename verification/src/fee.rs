//! The decision behind the fee-quote endpoint's reply: which body and
//! status a fee lookup's outcome maps to. The transport around it is not
//! part of this crate.

use vstd::prelude::*;

verus! {

/// The reply to a fee-info request: the quote with its expiry and a zero
/// fee ratio, a not-found reply, or an internal error.
#[derive(Clone, Copy, Debug, PartialEq)]
pub enum FeeInfoResponse {
    Found { minimal_fee: primitive_types::U256, expiration_date: i64, fee_ratio: u32 },
    NotFound,
    InternalError,
}

/// Maps a fee lookup's outcome to the reply body: a found quote carries
/// the fee, its expiry and a zero fee ratio; a missing token is a
/// not-found reply; a failed lookup is an internal error.
pub fn fee_info_response(
    result: Result<Option<(primitive_types::U256, i64)>, ()>,
) -> (r: FeeInfoResponse)
    ensures
        match result {
            Result::Ok(Option::Some((fee, exp))) => r == (FeeInfoResponse::Found {
                minimal_fee: fee,
                expiration_date: exp,
                fee_ratio: 0u32,
            }),
            Result::Ok(Option::None) => r == FeeInfoResponse::NotFound,
            Result::Err(_) => r == FeeInfoResponse::InternalError,
        },
{
    match result {
        Result::Ok(Option::Some((fee, exp))) => FeeInfoResponse::Found {
            minimal_fee: fee,
            expiration_date: exp,
            fee_ratio: 0u32,
        },
        Result::Ok(Option::None) => FeeInfoResponse::NotFound,
        Result::Err(_) => FeeInfoResponse::InternalError,
    }
}

/// The HTTP status each reply travels with: 200 for a quote, 404 for an
/// unknown token, 500 for a failed lookup.
pub fn fee_status_code(r: &FeeInfoResponse) -> (code: u16)
    ensures
        code == (match *r {
            FeeInfoResponse::Found { .. } => 200u16,
            FeeInfoResponse::NotFound => 404u16,
            FeeInfoResponse::InternalError => 500u16,
        }),
{
    match r {
        FeeInfoResponse::Found { .. } => 200,
        FeeInfoResponse::NotFound => 404,
        FeeInfoResponse::InternalError => 500,
    }
}

} // verus!
