//! Model managers (`Model.objects`).

use vstd::prelude::*;
use crate::text::owned;

verus! {

/// Simple model manager implementation, bound to one table.
#[derive(Debug)]
pub struct ModelManager {
    table: String,
}

impl ModelManager {
    /// The name of the manager's table.
    pub closed spec fn table_name(&self) -> Seq<char> {
        self.table@
    }

    /// A manager for `table`.
    pub fn new(table: &str) -> (r: Self)
        ensures
            r.table_name() == table@,
    {
        ModelManager { table: owned(table) }
    }

    /// The table name for this manager.
    pub fn table(&self) -> (r: &str)
        ensures
            r@ == self.table_name(),
    {
        self.table.as_str()
    }
}

} // verus!
