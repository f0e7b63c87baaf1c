//! Animals that tell their names.

use vstd::prelude::*;

verus! {

/// Something with a name.
pub trait Animal {
    /// The name, as a mathematical value.
    spec fn spec_name(&self) -> Seq<char>;

    /// The name.
    fn name(&self) -> (name: &'static str)
        ensures
            name@ == self.spec_name(),
    ;
}

pub struct Dog;

pub struct Cat;

impl Animal for Cat {
    open spec fn spec_name(&self) -> Seq<char> {
        "Cat"@
    }

    fn name(&self) -> (name: &'static str) {
        "Cat"
    }
}

impl Animal for Dog {
    open spec fn spec_name(&self) -> Seq<char> {
        "Dog"@
    }

    fn name(&self) -> (name: &'static str) {
        "Dog"
    }
}

/// The name of `animal`.
pub fn name<T: Animal>(animal: &T) -> (name: &'static str)
    ensures
        name@ == animal.spec_name(),
{
    animal.name()
}

} // verus!
