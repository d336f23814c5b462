//! A restaurant: the front of the house, which the guests see, and the back
//! of the house, where the food is made.

pub mod back_of_house;
pub mod front_of_house;

pub use self::front_of_house::hosting;

use self::back_of_house::Breakfast;
use vstd::prelude::*;
use vstd::string::StringExecFns;

verus! {

/// Brings an order to the table.
pub fn deliver_order() {
}

/// A guest orders a summer breakfast with rye toast, takes wheat instead,
/// and is put on the waiting list. Returns what the guest says.
pub fn eat_at_restaurant() -> (order: String)
    ensures
        order@ == "I'd like "@ + "Wheat"@ + " toast please"@,
{
    let mut meal = Breakfast::summer("Rye");
    meal.change_toast("Wheat");
    let mut order = String::from_str("I'd like ");
    order.append(meal.toast());
    order.append(" toast please");
    hosting::add_to_waitlist();
    order
}

} // verus!
