use juice_nets::batch::{assemble_batch, BatchIterator};
use juice_nets::dataset::{DatasetIndex, Sample};
use juice_nets::driver::{DriverAction, StepOutcome, TrainingDriver};
use juice_nets::errors::PipelineError;
use juice_nets::labels::LabelIndex;

fn sample(id: &str, label: &str) -> Sample {
    Sample { identifier: String::from(id), label: String::from(label) }
}

fn ten_samples() -> DatasetIndex {
    let mut samples = Vec::new();
    for i in 0..10 {
        samples.push(sample(&format!("s{}", i), &format!("l{}", i)));
    }
    DatasetIndex { samples, excluded: 0 }
}

#[test]
fn label_load_skips_bad_row() {
    // Three data rows; the second is missing a column: two entries, one
    // skipped row, no fatal error.
    let ix = LabelIndex::load("id,breed\na,pug\nb\nc,lab\n", "id", "breed").unwrap();
    assert_eq!(ix.len(), 2);
    assert_eq!(ix.skipped_rows(), 1);
    assert_eq!(ix.get("a").unwrap().as_str(), "pug");
    assert_eq!(ix.get("c").unwrap().as_str(), "lab");
    assert!(ix.get("b").is_none());
}

#[test]
fn label_load_header_columns_by_name() {
    // Column order and extra columns are immaterial; only the two named
    // columns are consumed.
    let ix = LabelIndex::load("breed,id,extra\npug,a,z\r\nlab,b,y\n", "id", "breed").unwrap();
    assert_eq!(ix.len(), 2);
    assert_eq!(ix.skipped_rows(), 0);
    assert_eq!(ix.get("a").unwrap().as_str(), "pug");
    assert_eq!(ix.get("b").unwrap().as_str(), "lab");
}

#[test]
fn label_load_unreadable_source() {
    // No rows at all, or a header lacking one of the named columns.
    assert_eq!(LabelIndex::load("", "id", "breed").err(), Some(PipelineError::LabelSourceUnreadable));
    assert_eq!(
        LabelIndex::load("name,breed\na,pug\n", "id", "breed").err(),
        Some(PipelineError::LabelSourceUnreadable)
    );
    assert_eq!(
        LabelIndex::load("id,colour\na,pug\n", "id", "breed").err(),
        Some(PipelineError::LabelSourceUnreadable)
    );
}

#[test]
fn label_load_without_trailing_newline() {
    let ix = LabelIndex::load("id,breed\na,pug", "id", "breed").unwrap();
    assert_eq!(ix.len(), 1);
    assert_eq!(ix.skipped_rows(), 0);
    assert_eq!(ix.get("a").unwrap().as_str(), "pug");
}

#[test]
fn label_load_duplicate_id_first_wins() {
    let ix = LabelIndex::load("id,breed\na,pug\na,lab\n", "id", "breed").unwrap();
    assert_eq!(ix.len(), 1);
    assert_eq!(ix.skipped_rows(), 1);
    assert_eq!(ix.get("a").unwrap().as_str(), "pug");
}

#[test]
fn dataset_build_intersects_and_counts() {
    // On disk {a,b,c}, labelled {b,c,d}: the corpus is exactly {b,c}, in
    // order, and 2 identifiers were excluded (a and d).
    let labels = LabelIndex::load("id,breed\nb,1\nc,2\nd,3\n", "id", "breed").unwrap();
    let disk = vec![String::from("a"), String::from("b"), String::from("c")];
    let ds = DatasetIndex::build(&labels, &disk).unwrap();
    assert_eq!(ds.samples.len(), 2);
    assert_eq!(ds.samples[0].identifier, "b");
    assert_eq!(ds.samples[0].label, "1");
    assert_eq!(ds.samples[1].identifier, "c");
    assert_eq!(ds.samples[1].label, "2");
    assert_eq!(ds.excluded, 2);
}

#[test]
fn dataset_build_sorts_identifiers() {
    // Never directory-listing order: a stable sort of identifiers.
    let labels = LabelIndex::load("id,breed\nc,3\na,1\nb,2\n", "id", "breed").unwrap();
    let disk = vec![String::from("c"), String::from("a"), String::from("b")];
    let ds = DatasetIndex::build(&labels, &disk).unwrap();
    let ids: Vec<&str> = ds.samples.iter().map(|s| s.identifier.as_str()).collect();
    assert_eq!(ids, vec!["a", "b", "c"]);
    assert_eq!(ds.excluded, 0);
}

#[test]
fn dataset_build_empty_intersection() {
    let labels = LabelIndex::load("id,breed\na,1\n", "id", "breed").unwrap();
    let disk = vec![String::from("x"), String::from("y")];
    assert_eq!(DatasetIndex::build(&labels, &disk).err(), Some(PipelineError::EmptyDataset));
}

#[test]
fn batch_iterator_two_full_windows_and_restart() {
    // 10 samples, batch size 4: exactly 2 full windows, the last 2 samples
    // dropped; restarting reproduces the identical windows.
    let ds = ten_samples();
    let mut it = BatchIterator::new(&ds, 4);
    let first: Vec<String> =
        it.next_window().unwrap().iter().map(|s| s.identifier.clone()).collect();
    let second: Vec<String> =
        it.next_window().unwrap().iter().map(|s| s.identifier.clone()).collect();
    assert_eq!(first, vec!["s0", "s1", "s2", "s3"]);
    assert_eq!(second, vec!["s4", "s5", "s6", "s7"]);
    assert!(it.next_window().is_none());
    assert!(it.next_window().is_none());
    it.restart();
    let first_again: Vec<String> =
        it.next_window().unwrap().iter().map(|s| s.identifier.clone()).collect();
    let second_again: Vec<String> =
        it.next_window().unwrap().iter().map(|s| s.identifier.clone()).collect();
    assert_eq!(first, first_again);
    assert_eq!(second, second_again);
    assert!(it.next_window().is_none());
}

#[test]
fn batch_iterator_reorder_starts_over() {
    let ds = ten_samples();
    let mut it = BatchIterator::new(&ds, 4);
    it.next_window().unwrap();
    it.reorder(vec![sample("z", "9"), sample("y", "8"), sample("x", "7"), sample("w", "6")]);
    let ids: Vec<String> = it.next_window().unwrap().iter().map(|s| s.identifier.clone()).collect();
    assert_eq!(ids, vec!["z", "y", "x", "w"]);
    assert!(it.next_window().is_none());
}

#[test]
fn assemble_batch_one_decode_failure() {
    // One failed decode in a 4-sample window: size 3, the failure reported
    // with that sample's identifier, the other pairings unchanged.
    let window = vec![sample("a", "1"), sample("b", "2"), sample("c", "3"), sample("d", "4")];
    let decoded = vec![Some(vec![1u8, 2]), None, Some(vec![5u8, 6]), Some(vec![7u8, 8])];
    let (batch, failed) = assemble_batch(&window, &decoded, 2);
    let batch = batch.unwrap();
    assert_eq!(batch.size, 3);
    assert_eq!(batch.features, vec![vec![1u8, 2], vec![5u8, 6], vec![7u8, 8]]);
    assert_eq!(batch.labels, vec!["1", "3", "4"]);
    assert_eq!(failed, vec!["b"]);
}

#[test]
fn assemble_batch_wrong_shape_is_failure() {
    let window = vec![sample("a", "1"), sample("b", "2")];
    let decoded = vec![Some(vec![1u8, 2, 3]), Some(vec![4u8, 5])];
    let (batch, failed) = assemble_batch(&window, &decoded, 2);
    let batch = batch.unwrap();
    assert_eq!(batch.size, 1);
    assert_eq!(batch.labels, vec!["2"]);
    assert_eq!(failed, vec!["a"]);
}

#[test]
fn assemble_batch_all_failures_yields_no_batch() {
    let window = vec![sample("a", "1"), sample("b", "2")];
    let decoded = vec![None, None];
    let (batch, failed) = assemble_batch(&window, &decoded, 2);
    assert!(batch.is_none());
    assert_eq!(failed, vec!["a", "b"]);
}

#[test]
fn driver_counts_and_halts() {
    let mut d = TrainingDriver::new();
    assert_eq!(d.on_batch_result(StepOutcome::Stepped), DriverAction::Continue);
    assert_eq!(d.on_batch_result(StepOutcome::StepFailed), DriverAction::Continue);
    assert!(d.should_continue());
    assert_eq!(d.on_batch_result(StepOutcome::Fatal), DriverAction::Stop);
    assert!(!d.should_continue());
    assert_eq!(d.batches_seen, 3);
    assert_eq!(d.step_failures, 1);
    // The pipeline's fatal iteration error exists alongside the engine's
    // fatal signal.
    assert_eq!(PipelineError::DatasetUnavailable, PipelineError::DatasetUnavailable);
}
