//! A restaurant's front and back of house, as a tour of item visibility.
use vstd::prelude::*;
use vstd::string::StringExecFns;

verus! {

/// Puts a party on the waiting list.
pub fn add_to_waitlist() {
}

/// A visit: the party is put on the waiting list, twice over, by both paths.
pub fn eat_at_restaurant() {
    add_to_waitlist();
    add_to_waitlist();
}

/// A visit through the shorter path.
pub fn eat() {
    add_to_waitlist();
}

/// A breakfast order: the toast is chosen, the fruit is the season's.
pub struct Breakfast {
    /// The kind of toast.
    pub toast: String,
    seasonal_fruit: String,
}

impl Breakfast {
    /// The kind of toast ordered.
    pub closed spec fn toast_kind(&self) -> Seq<char> {
        self.toast@
    }

    /// The fruit served, which the kitchen chooses.
    pub closed spec fn fruit(&self) -> Seq<char> {
        self.seasonal_fruit@
    }

    /// The summer breakfast with `toast`: it comes with peaches.
    pub fn summer(toast: &str) -> (b: Breakfast)
        ensures
            b.toast_kind() == toast@,
            b.fruit() == "peaches"@,
    {
        Breakfast { toast: String::from_str(toast), seasonal_fruit: String::from_str("peaches") }
    }

    /// The fruit served.
    pub fn seasonal_fruit(&self) -> (s: &String)
        ensures
            s@ == self.fruit(),
    {
        &self.seasonal_fruit
    }
}

/// What can be ordered before the meal.
#[derive(PartialEq, Eq, Structural, Clone, Copy, Debug)]
pub enum Appetizer {
    Soup,
    Salad,
}

} // verus!
