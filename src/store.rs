use vstd::prelude::*;

verus! {

/// What the durable store's table needs before use, given its current columns.
#[derive(Clone, Copy, Debug, PartialEq, Eq, Structural)]
pub enum SchemaStep {
    /// An older table names the completion column `is_completed`: rename it to `checked`.
    RenameCompletedColumn,
    /// There is no table yet: create it.
    CreateTable,
    /// The table is ready as it is.
    Ready,
}

pub open spec fn has_column(columns: Seq<String>, name: Seq<char>) -> bool {
    exists|i: int| 0 <= i < columns.len() && #[trigger] columns[i]@ == name
}

/// The step the store's schema needs, from the names of the table's columns.
pub open spec fn schema_step_of(columns: Seq<String>) -> SchemaStep {
    if has_column(columns, "is_completed"@) && !has_column(columns, "checked"@) {
        SchemaStep::RenameCompletedColumn
    } else if !has_column(columns, "id"@) {
        SchemaStep::CreateTable
    } else {
        SchemaStep::Ready
    }
}

fn contains_column(columns: &Vec<String>, name: &str) -> (r: bool)
    ensures
        r == has_column(columns@, name@),
{
    let wanted = name.to_string();
    let mut i: usize = 0;
    while i < columns.len()
        invariant
            wanted@ == name@,
            i <= columns@.len(),
            forall|k: int| 0 <= k < i ==> #[trigger] columns@[k]@ != name@,
        decreases columns@.len() - i,
    {
        if columns[i] == wanted {
            return true;
        }
        i = i + 1;
    }
    false
}

/// Decides how to bring the store's table up to date from its column names.
pub fn schema_step(columns: &Vec<String>) -> (r: SchemaStep)
    ensures
        r == schema_step_of(columns@),
{
    if contains_column(columns, "is_completed") && !contains_column(columns, "checked") {
        SchemaStep::RenameCompletedColumn
    } else if !contains_column(columns, "id") {
        SchemaStep::CreateTable
    } else {
        SchemaStep::Ready
    }
}

} // verus!
