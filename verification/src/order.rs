//! Checkout-time records: what an order carries when it is placed.
//!
//! These are consumed, not produced, by the extraction pipeline; they are
//! kept as plain data.  A delivery time is held as a civil instant: seconds
//! since the epoch plus the local offset.

use vstd::prelude::*;
use crate::dish::{Addition, Dish};

verus! {

/// A delivery address.
#[derive(Clone, PartialEq, Eq, Debug)]
pub struct Address {
    pub locality: String,
    pub street: String,
    pub house: String,
    pub flat: String,
}

/// The customer placing an order.
#[derive(Clone, PartialEq, Eq, Debug)]
pub struct Identity {
    pub first_name: String,
    pub last_name: String,
    pub phone_number: String,
    pub email: String,
}

/// A requested delivery time: seconds since the epoch and the local offset
/// from UTC in seconds.
#[derive(Clone, Copy, PartialEq, Eq, Structural, Debug)]
pub struct DeliveryTime {
    pub unix_seconds: i64,
    pub offset_seconds: i32,
}

/// One ordered dish with its chosen additions.
#[derive(Clone, PartialEq, Eq, Debug)]
pub struct OrderEntry {
    pub dish: Dish,
    pub count: u8,
    pub additions: Vec<Addition>,
    pub comment: String,
}

/// A whole order.
#[derive(Clone, PartialEq, Eq, Debug)]
pub struct Order {
    pub entries: Vec<OrderEntry>,
    pub address: Address,
    pub identity: Identity,
    pub delivery_time: Option<DeliveryTime>,
    pub comment: String,
}

} // verus!
