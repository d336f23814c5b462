//! Serving the guests.

use vstd::prelude::*;

verus! {

/// Takes the order of a table.
pub fn take_order() {
}

/// Serves an order.
pub fn serve_order() {
}

/// Takes the payment of a table.
pub fn take_payment() {
}

} // verus!
