//! Declarations of the std and outside types that the connection state holds.
use serde_json::Error as JsonError;
use vstd::prelude::*;

verus! {

/// The handle that wakes a suspended task (std).
#[verifier::external_type_specification]
#[verifier::external_body]
pub struct ExWaker(core::task::Waker);

/// Relies on `Waker::wake_by_ref`: schedules the task; nothing is observable here.
pub assume_specification[ core::task::Waker::wake_by_ref ](w: &core::task::Waker);

/// Relies on `Waker::clone`: another handle to the same task.
pub assume_specification[ <core::task::Waker as Clone>::clone ](w: &core::task::Waker) -> core::task::Waker;

/// The error of serde_json's encoder and decoder.
#[verifier::external_type_specification]
#[verifier::external_body]
pub struct ExJsonError(JsonError);

/// serde_json's dynamically typed JSON value.
#[verifier::external_type_specification]
#[verifier::external_body]
pub struct ExJsonValue(serde_json::Value);

} // verus!
