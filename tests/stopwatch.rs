use crawler::stopwatch::Stopwatch;

#[test]
fn new_stopwatch_reads_zero() {
    let s = Stopwatch::new();
    assert_eq!(s.get_elapsed(), 0);
}

#[test]
fn runs_accumulate() {
    let mut s = Stopwatch::new();
    s.start_at(10);
    assert_eq!(s.elapsed_at(25), 15);
    s.start_at(20);
    s.stop_at(30);
    assert_eq!(s.elapsed_at(1000), 20);
    s.start_at(100);
    s.stop_at(105);
    assert_eq!(s.elapsed_at(0), 25);
}

#[test]
fn stop_before_start_adds_nothing() {
    let mut s = Stopwatch::new();
    s.start_at(50);
    s.stop_at(40);
    assert_eq!(s.elapsed_at(60), 0);
}

#[test]
fn reset_clears() {
    let mut s = Stopwatch::new();
    s.start_at(1);
    s.stop_at(9);
    s.reset();
    assert_eq!(s.elapsed_at(100), 0);
}

#[test]
fn saturates_at_max() {
    let mut s = Stopwatch::new();
    s.start_at(0);
    s.stop_at(u128::MAX);
    s.start_at(0);
    s.stop_at(5);
    assert_eq!(s.elapsed_at(0), u128::MAX);
}

#[test]
fn live_clock_measures_something() {
    let mut s = Stopwatch::new();
    s.start();
    let a = s.get_elapsed();
    let b = s.get_elapsed();
    assert!(b >= a);
    s.stop();
    let c = s.get_elapsed();
    assert_eq!(c, s.get_elapsed());
}
