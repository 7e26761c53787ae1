//! The order of work that bundles the datasets of several tables into one
//! compressed archive.
//!
//! Each table's dataset is written to a temporary file, appended to the
//! archive under that file's name, and the temporary file is removed before
//! the next table is taken up. The caller does the work, step by step, and
//! stops at the first step that fails.

use vstd::prelude::*;
use vstd::string::StringExecFns;

verus! {

/// One piece of work; the number is the place of the table.
#[derive(Clone, Copy, Debug, PartialEq, Eq, Structural)]
pub enum BundleStep {
    /// Write the table's dataset to its temporary file.
    WriteDataset(usize),
    /// Append the temporary file to the archive.
    AppendToArchive(usize),
    /// Remove the temporary file.
    RemoveTemporary(usize),
    /// Close the archive.
    FinishArchive,
}

/// The name of the temporary file of a table, which is also the name of its
/// entry in the archive.
pub open spec fn dataset_file_name_of(table_name: Seq<char>) -> Seq<char> {
    table_name + ".parquet"@
}

/// Computes [`dataset_file_name_of`].
pub fn dataset_file_name(table_name: &str) -> (name: String)
    ensures
        name@ == dataset_file_name_of(table_name@),
{
    let mut name = String::from_str(table_name);
    name.append(".parquet");
    name
}

/// The name of the archive.
pub fn archive_file_name() -> (name: String)
    ensures
        name@ == "examples.tar.gz"@,
{
    String::from_str("examples.tar.gz")
}

/// The steps for the first `tables` tables, without the closing of the
/// archive.
pub open spec fn table_steps(tables: usize) -> Seq<BundleStep>
    decreases tables,
{
    if tables == 0 {
        Seq::empty()
    } else {
        let last = (tables - 1) as usize;
        table_steps(last) + seq![
            BundleStep::WriteDataset(last),
            BundleStep::AppendToArchive(last),
            BundleStep::RemoveTemporary(last),
        ]
    }
}

/// The steps that bundle `tables` tables.
pub open spec fn bundle_steps(tables: usize) -> Seq<BundleStep> {
    table_steps(tables).push(BundleStep::FinishArchive)
}

/// Lists the steps that bundle `tables` tables: see [`bundle_steps`].
pub fn bundle_plan(tables: usize) -> (steps: Vec<BundleStep>)
    ensures
        steps@ == bundle_steps(tables),
{
    let mut steps: Vec<BundleStep> = Vec::new();
    let mut i: usize = 0;
    while i < tables
        invariant
            i <= tables,
            steps@ == table_steps(i),
        decreases tables - i,
    {
        steps.push(BundleStep::WriteDataset(i));
        steps.push(BundleStep::AppendToArchive(i));
        steps.push(BundleStep::RemoveTemporary(i));
        i += 1;
        assert(steps@ =~= table_steps(i));
    }
    steps.push(BundleStep::FinishArchive);
    steps
}

/// The temporary files that exist once `steps` are done, starting with
/// `files`.
pub open spec fn files_after(files: Set<usize>, steps: Seq<BundleStep>) -> Set<usize>
    decreases steps.len(),
{
    if steps.len() == 0 {
        files
    } else {
        let before = files_after(files, steps.drop_last());
        match steps.last() {
            BundleStep::WriteDataset(i) => before.insert(i),
            BundleStep::RemoveTemporary(i) => before.remove(i),
            _ => before,
        }
    }
}

/// The files after two runs of steps are those after the second run,
/// started with the files after the first.
pub proof fn lemma_files_after_both(files: Set<usize>, first: Seq<BundleStep>, second: Seq<BundleStep>)
    ensures
        files_after(files, first + second) == files_after(files_after(files, first), second),
    decreases second.len(),
{
    if second.len() == 0 {
        assert(first + second =~= first);
    } else {
        assert((first + second).drop_last() =~= first + second.drop_last());
        lemma_files_after_both(files, first, second.drop_last());
    }
}

/// When the work on any number of tables is done, no temporary file is left.
pub proof fn no_temporary_file_after_tables(tables: usize)
    ensures
        files_after(Set::empty(), table_steps(tables)) == Set::<usize>::empty(),
    decreases tables,
{
    if tables > 0 {
        let last = (tables - 1) as usize;
        let none = Set::<usize>::empty();
        let written = seq![BundleStep::WriteDataset(last)];
        let appended = written.push(BundleStep::AppendToArchive(last));
        let removed = appended.push(BundleStep::RemoveTemporary(last));
        no_temporary_file_after_tables(last);
        lemma_files_after_both(none, table_steps(last), removed);
        assert(table_steps(tables) =~= table_steps(last) + removed);
        assert(written.drop_last() =~= Seq::<BundleStep>::empty());
        assert(files_after(none, written.drop_last()) == none);
        assert(files_after(none, written) == none.insert(last));
        assert(appended.drop_last() =~= written);
        assert(files_after(none, appended) == none.insert(last));
        assert(removed.drop_last() =~= appended);
        assert(files_after(none, removed) =~= none);
    }
}

/// When a bundle is done, no temporary file is left.
pub proof fn no_temporary_file_after_bundle(tables: usize)
    ensures
        files_after(Set::empty(), bundle_steps(tables)) == Set::<usize>::empty(),
{
    no_temporary_file_after_tables(tables);
    assert(bundle_steps(tables).drop_last() =~= table_steps(tables));
}

} // verus!
