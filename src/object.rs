use vstd::prelude::*;

verus! {

/// A runtime value that can stand in the constant pool.
#[derive(Clone, Debug, PartialEq)]
pub enum Object {
    Integer(i64),
    String(String),
}

} // verus!
