//! The seal on [`crate::OptionalInterfaceRef`]: only interfaces and optional interfaces
//! may implement it.
use crate::Interface;
use vstd::prelude::*;

verus! {

pub trait Sealed {}

impl<T: Interface> Sealed for T {}

impl<T: Interface> Sealed for Option<T> {}

} // verus!
