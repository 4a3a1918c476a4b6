use imgsort::stats::Stats;

#[test]
fn new_stats_are_zero() {
    let s = Stats::new();
    assert_eq!(s.tot, 0);
    assert_eq!(s.copied, 0);
    assert_eq!(s.moved, 0);
    assert_eq!(s.renamed, 0);
    assert_eq!(s.already_present, 0);
    assert_eq!(s.skipped, 0);
}

#[test]
fn each_counter_increments_alone() {
    let mut s = Stats::new();
    s.inc_tot();
    assert_eq!((s.tot, s.copied, s.moved, s.renamed, s.already_present, s.skipped), (1, 0, 0, 0, 0, 0));
    s.inc_copied();
    assert_eq!(s.copied, 1);
    s.inc_moved();
    assert_eq!(s.moved, 1);
    s.inc_renamed();
    assert_eq!(s.renamed, 1);
    s.inc_already_present();
    assert_eq!(s.already_present, 1);
    s.inc_skipped();
    assert_eq!(s.skipped, 1);
    assert_eq!(s.tot, 1);
}
