//! Per-crate retained-size records, as reported by an external size analyzer.

use vstd::prelude::*;

verus! {

/// One crate of the analyzed binary together with the code size retained by
/// it. The record is produced outside this library (the size analyzer runs a
/// build and reports its findings); here it is plain data.
#[derive(Debug, Clone)]
pub struct Crate {
    pub name: String,
    pub size: usize,
}

} // verus!
