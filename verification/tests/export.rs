use sample_tournament::export::export_results;
use sample_tournament::sample::Sample;

fn scored(path: &str, score: i32) -> Sample {
    Sample { path: path.to_string(), filename: String::new(), score, comparisons: 0 }
}

#[test]
fn export_keeps_scores_at_or_above_the_threshold() {
    let samples = vec![scored("/m/three.wav", 3), scored("/m/five.wav", 5), scored("/m/seven.wav", 7)];
    assert_eq!(export_results(&samples, 5), "/m/five.wav\n/m/seven.wav");
}

#[test]
fn export_keeps_the_given_order() {
    let samples = vec![
        scored("/m/z.wav", 9),
        scored("/m/skip.wav", 1),
        scored("/m/a.wav", 4),
        scored("/m/m.wav", 6),
    ];
    assert_eq!(export_results(&samples, 4), "/m/z.wav\n/m/a.wav\n/m/m.wav");
}

#[test]
fn export_of_nothing_is_empty() {
    assert_eq!(export_results(&Vec::new(), 0), "");
    assert_eq!(export_results(&vec![scored("/m/a.wav", 1), scored("/m/b.wav", 2)], 3), "");
}

#[test]
fn export_of_one_sample_has_no_line_feed() {
    assert_eq!(export_results(&vec![scored("/m/a.wav", 0)], 0), "/m/a.wav");
    assert_eq!(export_results(&vec![scored("/m/low.wav", -1), scored("/m/a.wav", 0)], 0), "/m/a.wav");
}

#[test]
fn export_threshold_may_be_negative() {
    let samples = vec![scored("/m/a.wav", -3), scored("/m/b.wav", -2), scored("/m/c.wav", i32::MIN)];
    assert_eq!(export_results(&samples, -2), "/m/b.wav");
    assert_eq!(export_results(&samples, i32::MIN), "/m/a.wav\n/m/b.wav\n/m/c.wav");
    assert_eq!(export_results(&samples, i32::MAX), "");
}

#[test]
fn export_keeps_a_path_that_occurs_twice() {
    let samples = vec![scored("/m/a.wav", 5), scored("/m/a.wav", 6)];
    assert_eq!(export_results(&samples, 5), "/m/a.wav\n/m/a.wav");
}
