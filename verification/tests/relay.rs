use rate_relay::diag::render_discard;
use rate_relay::limiter::{relay_batch, Config, Decision, Window};

fn lines_of(v: &[&str]) -> Vec<String> {
    v.iter().map(|s| s.to_string()).collect()
}

fn strs_of(v: &[String]) -> Vec<&str> {
    v.iter().map(|s| s.as_str()).collect()
}

#[test]
fn empty_run_no_output() {
    let cfg = Config { limit: 2, window: 1, verbose: true };
    let mut w = Window::new(0);
    let (out, diags) = relay_batch(&cfg, &mut w, &vec![], &vec![]);
    assert!(out.is_empty());
    assert!(diags.is_empty());
    assert_eq!(w.start, 0);
    assert_eq!(w.admitted, 0);
}

#[test]
fn burst_of_three_against_limit_two() {
    let cfg = Config { limit: 2, window: 1, verbose: true };
    let mut w = Window::new(0);
    let times: Vec<u64> = vec![0, 0, 0];
    let lines = lines_of(&["a\n", "b\n", "c\n"]);
    let (out, diags) = relay_batch(&cfg, &mut w, &times, &lines);
    assert_eq!(strs_of(&out), vec!["a\n", "b\n"]);
    assert_eq!(strs_of(&diags), vec!["DISCARD:2/2:c\n"]);
    assert_eq!(w.admitted, 2);
}

#[test]
fn unlimited_passes_everything() {
    let cfg = Config { limit: 0, window: 1, verbose: true };
    let mut w = Window::new(0);
    let times: Vec<u64> = vec![0, 0];
    let lines = lines_of(&["x\n", "y\n"]);
    let (out, diags) = relay_batch(&cfg, &mut w, &times, &lines);
    assert_eq!(strs_of(&out), vec!["x\n", "y\n"]);
    assert!(diags.is_empty());
}

#[test]
fn window_reset_readmits() {
    let cfg = Config { limit: 1, window: 1, verbose: true };
    let mut w = Window::new(0);
    let times: Vec<u64> = vec![0, 0, 1];
    let lines = lines_of(&["first\n", "second\n", "third\n"]);
    let (out, diags) = relay_batch(&cfg, &mut w, &times, &lines);
    assert_eq!(strs_of(&out), vec!["first\n", "third\n"]);
    assert_eq!(strs_of(&diags), vec!["DISCARD:1/1:second\n"]);
    assert_eq!(w.start, 1);
    assert_eq!(w.admitted, 1);
}

#[test]
fn zero_window_never_discards() {
    let cfg = Config { limit: 1, window: 0, verbose: true };
    let mut w = Window::new(0);
    let times: Vec<u64> = vec![0, 0, 0];
    let lines = lines_of(&["a\n", "b\n", "c\n"]);
    let (out, diags) = relay_batch(&cfg, &mut w, &times, &lines);
    assert_eq!(strs_of(&out), vec!["a\n", "b\n", "c\n"]);
    assert!(diags.is_empty());
}

#[test]
fn verbose_off_discards_silently() {
    let cfg = Config { limit: 1, window: 10, verbose: false };
    let mut w = Window::new(0);
    let times: Vec<u64> = vec![0, 1, 2];
    let lines = lines_of(&["a\n", "b\n", "c\n"]);
    let (out, diags) = relay_batch(&cfg, &mut w, &times, &lines);
    assert_eq!(strs_of(&out), vec!["a\n"]);
    assert!(diags.is_empty());
}

#[test]
fn order_preserved_across_windows() {
    let cfg = Config { limit: 2, window: 5, verbose: false };
    let mut w = Window::new(0);
    let times: Vec<u64> = vec![0, 0, 0, 6, 6, 6];
    let lines = lines_of(&["l0\n", "l1\n", "l2\n", "l3\n", "l4\n", "l5\n"]);
    let (out, _) = relay_batch(&cfg, &mut w, &times, &lines);
    assert_eq!(strs_of(&out), vec!["l0\n", "l1\n", "l3\n", "l4\n"]);
}

#[test]
fn step_admits_and_counts() {
    let cfg = Config { limit: 1, window: 10, verbose: false };
    let mut w = Window::new(5);
    let r = w.step(&cfg, 5);
    assert_eq!(r.decision, Decision::Admit);
    assert!(!r.rolled);
    assert_eq!(w.admitted, 1);
    assert_eq!(w.start, 5);
    let r = w.step(&cfg, 7);
    assert_eq!(r.decision, Decision::Discard);
    assert!(!r.rolled);
    assert_eq!(w.admitted, 1);
    let r = w.step(&cfg, 15);
    assert_eq!(r.decision, Decision::Admit);
    assert!(r.rolled);
    assert_eq!(w.start, 15);
    assert_eq!(w.admitted, 1);
}

#[test]
fn discard_record_is_exact() {
    assert_eq!(render_discard(2, 2, "c\n"), "DISCARD:2/2:c\n");
    assert_eq!(render_discard(0, 1, ""), "DISCARD:0/1:");
    assert_eq!(render_discard(105, 1000, "hello\n"), "DISCARD:105/1000:hello\n");
    assert_eq!(render_discard(10, 10, "x"), "DISCARD:10/10:x");
}

#[test]
fn discard_record_adds_no_framing() {
    // A line with no terminator of its own ends the record without one.
    let r = render_discard(3, 3, "tail");
    assert!(!r.ends_with('\n'));
    assert_eq!(r, "DISCARD:3/3:tail");
}

#[test]
fn every_window_rollover_readmits() {
    let cfg = Config { limit: 1, window: 2, verbose: true };
    let mut w = Window::new(0);
    let times: Vec<u64> = vec![0, 2, 4];
    let lines = lines_of(&["a\n", "b\n", "c\n"]);
    let (out, diags) = relay_batch(&cfg, &mut w, &times, &lines);
    assert_eq!(strs_of(&out), vec!["a\n", "b\n", "c\n"]);
    assert!(diags.is_empty());
    assert_eq!(w.start, 4);
}
