use lernspark::bundle::{archive_file_name, bundle_plan, dataset_file_name, BundleStep};

#[test]
fn each_table_is_written_appended_and_removed() {
    assert_eq!(
        bundle_plan(2),
        vec![
            BundleStep::WriteDataset(0),
            BundleStep::AppendToArchive(0),
            BundleStep::RemoveTemporary(0),
            BundleStep::WriteDataset(1),
            BundleStep::AppendToArchive(1),
            BundleStep::RemoveTemporary(1),
            BundleStep::FinishArchive,
        ]
    );
    assert_eq!(bundle_plan(0), vec![BundleStep::FinishArchive]);
}

#[test]
fn no_temporary_file_is_left_after_a_bundle() {
    for tables in 0..20 {
        let mut files: Vec<usize> = vec![];
        let steps = bundle_plan(tables);
        assert_eq!(steps.len(), 3 * tables + 1);
        for step in steps {
            match step {
                BundleStep::WriteDataset(i) => files.push(i),
                BundleStep::AppendToArchive(i) => assert_eq!(files, vec![i]),
                BundleStep::RemoveTemporary(i) => files.retain(|f| *f != i),
                BundleStep::FinishArchive => assert!(files.is_empty()),
            }
            assert!(files.len() <= 1);
        }
        assert!(files.is_empty());
    }
}

#[test]
fn file_names() {
    assert_eq!(dataset_file_name("Starks"), "Starks.parquet");
    assert_eq!(dataset_file_name(""), ".parquet");
    assert_eq!(archive_file_name(), "examples.tar.gz");
}
