use runiq::engine::{classify_all, run_digest, run_naive, Classification, UniquenessEngine};
use runiq::errors::RunError;
use runiq::filters::{fingerprint_eq, fingerprint_naive, fingerprint_of_digest, FilterKind};
use runiq::options::Options;
use runiq::report::{compute_statistics, run_statistics, select_displayed};

fn strings(xs: &[&str]) -> Vec<String> {
    xs.iter().map(|s| s.to_string()).collect()
}

fn bytes(xs: &[&str]) -> Vec<Vec<u8>> {
    xs.iter().map(|s| s.as_bytes().to_vec()).collect()
}

#[test]
fn naive_scenario_a_b_a() {
    let inputs = strings(&["a", "b", "a"]);
    let results = run_naive(&inputs);
    assert_eq!(results.len(), 3);
    assert_eq!(results[0].input, "a");
    assert_eq!(results[0].class, Classification::Unique);
    assert_eq!(results[1].input, "b");
    assert_eq!(results[1].class, Classification::Unique);
    assert_eq!(results[2].input, "a");
    assert_eq!(results[2].class, Classification::Duplicate);
}

#[test]
fn naive_scenario_inverted_display() {
    let inputs = strings(&["a", "b", "a"]);
    let results = run_naive(&inputs);
    let displayed = select_displayed(&results, true);
    assert_eq!(displayed, vec!["a".to_string()]);
}

#[test]
fn naive_scenario_normal_display() {
    let inputs = strings(&["a", "b", "a"]);
    let results = run_naive(&inputs);
    let displayed = select_displayed(&results, false);
    assert_eq!(displayed, vec!["a".to_string(), "b".to_string()]);
}

#[test]
fn digest_scenario_statistics() {
    let inputs = strings(&["one", "two", "three"]);
    let contents = bytes(&["hello", "world", "hello"]);
    let results = run_digest(&inputs, &contents);
    let stats = compute_statistics(&results);
    assert_eq!(stats.total, 3);
    assert_eq!(stats.unique, 2);
    assert_eq!(stats.duplicate, 1);
}

#[test]
fn digest_scenario_statistics_through_run() {
    let options = Options::new(
        FilterKind::Digest,
        strings(&["one", "two", "three"]),
        false,
        true,
    )
    .unwrap();
    let stats = run_statistics(&options, &bytes(&["hello", "world", "hello"])).unwrap();
    assert_eq!(stats.total, 3);
    assert_eq!(stats.unique, 2);
    assert_eq!(stats.duplicate, 1);

    // the tally ignores the invert flag
    let inverted = Options::new(
        FilterKind::Digest,
        strings(&["one", "two", "three"]),
        true,
        true,
    )
    .unwrap();
    let same = run_statistics(&inverted, &bytes(&["hello", "world", "hello"])).unwrap();
    assert_eq!(same, stats);
}

#[test]
fn run_statistics_rejects_empty_inputs() {
    let options = Options {
        filter: FilterKind::Naive,
        inputs: Vec::new(),
        inverted: false,
        statistics: true,
    };
    let r = run_statistics(&options, &Vec::new());
    assert!(matches!(r, Err(RunError::ConfigurationInvalid)));
}

#[test]
fn determinism_repeated_runs() {
    let inputs = strings(&["x", "y", "x", "z", "y"]);
    let first = run_naive(&inputs);
    let second = run_naive(&inputs);
    assert_eq!(first.len(), second.len());
    for (a, b) in first.iter().zip(second.iter()) {
        assert_eq!(a.input, b.input);
        assert_eq!(a.class, b.class);
    }
}

#[test]
fn first_seen_wins_across_gap() {
    let inputs = strings(&["k", "other", "k", "k"]);
    let results = run_naive(&inputs);
    assert_eq!(results[0].class, Classification::Unique);
    assert_eq!(results[2].class, Classification::Duplicate);
    assert_eq!(results[3].class, Classification::Duplicate);
}

#[test]
fn order_preserved() {
    let inputs = strings(&["c", "a", "b", "a", "c"]);
    let results = run_naive(&inputs);
    assert_eq!(results.len(), inputs.len());
    for (r, ident) in results.iter().zip(inputs.iter()) {
        assert_eq!(&r.input, ident);
    }
}

#[test]
fn statistics_consistency() {
    let inputs = strings(&["p", "q", "p", "r", "q", "p"]);
    let results = run_naive(&inputs);
    let stats = compute_statistics(&results);
    assert_eq!(stats.total, 6);
    assert_eq!(stats.unique + stats.duplicate, stats.total);
    // distinct identifiers: p, q, r
    assert_eq!(stats.unique, 3);
    assert_eq!(stats.duplicate, 3);
}

#[test]
fn naive_vs_digest_divergence() {
    // two distinct references with identical content
    let inputs = strings(&["left", "right"]);
    let contents = bytes(&["same content", "same content"]);

    let naive = run_naive(&inputs);
    assert_eq!(naive[0].class, Classification::Unique);
    assert_eq!(naive[1].class, Classification::Unique);

    let digest = run_digest(&inputs, &contents);
    assert_eq!(digest[0].class, Classification::Unique);
    assert_eq!(digest[1].class, Classification::Duplicate);
}

#[test]
fn empty_content_digest_repeats() {
    let inputs = strings(&["first", "second"]);
    let contents = bytes(&["", ""]);
    let results = run_digest(&inputs, &contents);
    assert_eq!(results[0].class, Classification::Unique);
    assert_eq!(results[1].class, Classification::Duplicate);
}

#[test]
fn engine_streaming_counts() {
    let mut engine = UniquenessEngine::new(FilterKind::Naive);
    assert_eq!(engine.total_count(), 0);
    assert_eq!(engine.unique_count(), 0);
    assert!(engine.observe(fingerprint_naive(&"a".to_string())));
    assert!(engine.observe(fingerprint_naive(&"b".to_string())));
    assert!(!engine.observe(fingerprint_naive(&"a".to_string())));
    assert_eq!(engine.total_count(), 3);
    assert_eq!(engine.unique_count(), 2);
}

#[test]
fn engine_digest_fingerprints() {
    let mut engine = UniquenessEngine::new(FilterKind::Digest);
    assert!(engine.observe(fingerprint_of_digest(7)));
    assert!(!engine.observe(fingerprint_of_digest(7)));
    assert!(engine.observe(fingerprint_of_digest(8)));
    assert_eq!(engine.unique_count(), 2);
}

#[test]
fn fingerprint_equality() {
    let a1 = fingerprint_naive(&"a".to_string());
    let a2 = fingerprint_naive(&"a".to_string());
    let b = fingerprint_naive(&"b".to_string());
    let d = fingerprint_of_digest(1);
    assert!(fingerprint_eq(&a1, &a2));
    assert!(!fingerprint_eq(&a1, &b));
    assert!(!fingerprint_eq(&a1, &d));
}

#[test]
fn classify_all_dispatches_naive() {
    let options = Options::new(FilterKind::Naive, strings(&["a", "a"]), false, false).unwrap();
    let results = classify_all(&options, &Vec::new()).unwrap();
    assert_eq!(results[0].class, Classification::Unique);
    assert_eq!(results[1].class, Classification::Duplicate);
}

#[test]
fn classify_all_dispatches_digest() {
    let options =
        Options::new(FilterKind::Digest, strings(&["a", "b"]), false, false).unwrap();
    let results = classify_all(&options, &bytes(&["same", "same"])).unwrap();
    assert_eq!(results[0].class, Classification::Unique);
    assert_eq!(results[1].class, Classification::Duplicate);
}

#[test]
fn classify_all_rejects_empty_inputs() {
    let options = Options {
        filter: FilterKind::Naive,
        inputs: Vec::new(),
        inverted: false,
        statistics: false,
    };
    let r = classify_all(&options, &Vec::new());
    assert!(matches!(r, Err(RunError::ConfigurationInvalid)));
}
