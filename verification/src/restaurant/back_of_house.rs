//! Where the food is made.

use super::deliver_order;
use vstd::prelude::*;
use vstd::string::StringExecFns;

verus! {

/// Cooks an order again and brings it to the table.
pub fn fix_incorrect_order() {
    cook_order();
    deliver_order();
}

/// Cooks an order.
pub fn cook_order() {
}

/// A breakfast. The guest picks the toast; the fruit is what the season
/// gives.
pub struct Breakfast {
    pub toast: String,
    seasonal_fruit: String,
}

impl Breakfast {
    /// The toast that the guest picked.
    pub closed spec fn spec_toast(&self) -> Seq<char> {
        self.toast@
    }

    /// The fruit that comes with the breakfast.
    pub closed spec fn spec_seasonal_fruit(&self) -> Seq<char> {
        self.seasonal_fruit@
    }

    /// A summer breakfast with the toast `toast`: it comes with peaches.
    pub fn summer(toast: &str) -> (meal: Breakfast)
        ensures
            meal.spec_toast() == toast@,
            meal.spec_seasonal_fruit() == "peaches"@,
    {
        Breakfast { toast: String::from_str(toast), seasonal_fruit: String::from_str("peaches") }
    }

    /// The toast that the guest picked.
    pub fn toast(&self) -> (toast: &str)
        ensures
            toast@ == self.spec_toast(),
    {
        self.toast.as_str()
    }

    /// Changes the toast of the breakfast to `toast`. The fruit stays.
    pub fn change_toast(&mut self, toast: &str)
        ensures
            final(self).spec_toast() == toast@,
            final(self).spec_seasonal_fruit() == old(self).spec_seasonal_fruit(),
    {
        self.toast = String::from_str(toast);
    }

    /// The fruit that comes with the breakfast.
    pub fn seasonal_fruit(&self) -> (fruit: &str)
        ensures
            fruit@ == self.spec_seasonal_fruit(),
    {
        self.seasonal_fruit.as_str()
    }
}

/// What comes before the meal.
pub enum Appetizer {
    Soup,
    Salad,
}

} // verus!
