//! A property exposes both a getter and a setter; the setter takes `&self`,
//! because the values live on the other side of the C interface.

use vstd::prelude::*;

verus! {

/// Something that has a getter and a setter.
pub trait Property<G, S> {
    fn get(&self) -> G;

    fn set(&self, value: S);
}

} // verus!
