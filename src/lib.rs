use vstd::prelude::*;

pub mod arc;
pub mod boxed;
pub mod bridge;
pub mod instr;
pub mod layout;
pub mod notifier;
pub mod string;
pub mod vector;

verus! {

/// Marker for types whose values may cross the C boundary as plain data.
pub trait FFISafe {}

impl FFISafe for u8 {}
impl FFISafe for u16 {}
impl FFISafe for u32 {}
impl FFISafe for u64 {}
impl FFISafe for i8 {}
impl FFISafe for i16 {}
impl FFISafe for i32 {}
impl FFISafe for i64 {}
impl FFISafe for usize {}
impl FFISafe for isize {}

/// A value that must not be duplicated bit-for-bit: it has no `Clone` or `Copy`.
pub struct EnforceNoCopy;

} // verus!
