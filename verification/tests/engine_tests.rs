use imgsort::date::{CandidateDate, Date, TimeOfDay};
use imgsort::engine::{
    apply_outcome, count_extension_step, dir_effect, reconcile, Decision, Effect, Outcome,
    Placement, Resolution, SkipReason,
};
use imgsort::resolver::resolve_bucket;
use imgsort::stats::Stats;
use imgsort::tally::ExtensionTally;
use imgsort::text::join_path;
use std::collections::HashMap;

fn cd(y: i32, mo: u32, d: u32) -> CandidateDate {
    CandidateDate { date: Date::checked(y, mo, d).unwrap(), time: None }
}

fn cdt(y: i32, mo: u32, d: u32, h: u8, mi: u8, s: u8) -> CandidateDate {
    CandidateDate {
        date: Date::checked(y, mo, d).unwrap(),
        time: Some(TimeOfDay { hour: h, minute: mi, second: s }),
    }
}

#[test]
fn reconcile_metadata_only() {
    let m = cdt(2019, 4, 26, 10, 26, 45);
    match reconcile(&Some(m), &None, false) {
        Resolution::Use { chosen, rename } => {
            assert_eq!(chosen.date, m.date);
            assert_eq!(chosen.time, m.time);
            assert!(!rename);
        }
        _ => panic!("expected a usable date"),
    }
}

#[test]
fn reconcile_filename_only() {
    let f = cd(2016, 8, 24);
    match reconcile(&None, &Some(f), false) {
        Resolution::Use { chosen, rename } => {
            assert_eq!(chosen.date, f.date);
            assert!(chosen.time.is_none());
            assert!(!rename);
        }
        _ => panic!("expected a usable date"),
    }
}

#[test]
fn reconcile_agreeing_dates_keep_metadata_time() {
    let m = cdt(2019, 4, 26, 10, 26, 45);
    let f = cd(2019, 4, 26);
    match reconcile(&Some(m), &Some(f), false) {
        Resolution::Use { chosen, rename } => {
            assert_eq!(chosen.date, m.date);
            assert_eq!(chosen.time, m.time);
            assert!(!rename);
        }
        _ => panic!("expected a usable date"),
    }
}

#[test]
fn reconcile_conflict_skips_by_default() {
    let m = cdt(2019, 4, 26, 10, 26, 45);
    let f = cd(2019, 4, 27);
    match reconcile(&Some(m), &Some(f), false) {
        Resolution::Skip { reason } => assert_eq!(reason, SkipReason::DateConflict),
        _ => panic!("expected a skip"),
    }
}

#[test]
fn reconcile_conflict_prefers_metadata_when_asked() {
    let m = cdt(2019, 4, 26, 10, 26, 45);
    let f = cd(2019, 4, 27);
    match reconcile(&Some(m), &Some(f), true) {
        Resolution::Use { chosen, rename } => {
            assert_eq!(chosen.date, m.date);
            assert!(rename);
        }
        _ => panic!("expected a usable date"),
    }
}

#[test]
fn reconcile_nothing_found_skips() {
    match reconcile(&None, &None, true) {
        Resolution::Skip { reason } => assert_eq!(reason, SkipReason::NoDate),
        _ => panic!("expected a skip"),
    }
}

#[test]
fn candidate_names_walk_suffixes() {
    let chosen = cd(2021, 1, 1);
    let mut p = Placement::new(
        "dest/2021/2021_01_01".to_string(),
        "a".to_string(),
        Some("jpg".to_string()),
        &chosen,
        false,
    );
    assert_eq!(p.current_name(), "a.jpg");
    assert_eq!(p.current_path(), "dest/2021/2021_01_01/a.jpg");
    p.advance();
    assert_eq!(p.current_name(), "a_01.jpg");
    p.advance();
    assert_eq!(p.current_name(), "a_02.jpg");
}

#[test]
fn candidate_names_without_extension() {
    let chosen = cd(2021, 1, 1);
    let mut p = Placement::new("d".to_string(), "clip".to_string(), None, &chosen, false);
    assert_eq!(p.current_name(), "clip");
    p.advance();
    assert_eq!(p.current_name(), "clip_01");
}

#[test]
fn rename_uses_canonical_stem() {
    let chosen = cdt(2019, 4, 26, 10, 26, 45);
    let p = Placement::new(
        "dest/2019/2019_04_26".to_string(),
        "IMG_20190427_000000".to_string(),
        Some("jpg".to_string()),
        &chosen,
        true,
    );
    assert_eq!(p.current_name(), "20190426_102645.jpg");
    let d = p.decide_place(&"src/x.jpg".to_string(), false, false);
    assert!(d.renamed);
    assert_eq!(d.outcome, Outcome::Moved);
}

#[test]
fn duplicate_in_move_mode_deletes_source() {
    let chosen = cd(2021, 1, 1);
    let p = Placement::new(
        "dest/2021/2021_01_01".to_string(),
        "a".to_string(),
        Some("jpg".to_string()),
        &chosen,
        false,
    );
    let d = p.decide_duplicate(&"src/b.jpg".to_string(), false, false);
    assert_eq!(d.outcome, Outcome::AlreadyPresent);
    assert!(!d.renamed);
    assert_eq!(d.effects, vec![Effect::DeleteFile { path: "src/b.jpg".to_string() }]);
}

#[test]
fn duplicate_in_copy_mode_keeps_source() {
    let chosen = cd(2021, 1, 1);
    let p = Placement::new("d".to_string(), "a".to_string(), None, &chosen, false);
    let d = p.decide_duplicate(&"src/a".to_string(), true, false);
    assert_eq!(d.outcome, Outcome::AlreadyPresent);
    assert!(d.effects.is_empty());
}

#[test]
fn place_copies_or_moves() {
    let chosen = cd(2021, 1, 1);
    let p = Placement::new("d".to_string(), "a".to_string(), Some("jpg".to_string()), &chosen, false);
    let c = p.decide_place(&"s/a.jpg".to_string(), true, false);
    assert_eq!(c.outcome, Outcome::Copied);
    assert!(!c.renamed);
    assert_eq!(
        c.effects,
        vec![Effect::CopyFile { from: "s/a.jpg".to_string(), to: "d/a.jpg".to_string() }]
    );
    let m = p.decide_place(&"s/a.jpg".to_string(), false, false);
    assert_eq!(m.outcome, Outcome::Moved);
    assert_eq!(
        m.effects,
        vec![Effect::MoveFile { from: "s/a.jpg".to_string(), to: "d/a.jpg".to_string() }]
    );
}

#[test]
fn dry_run_computes_but_mutates_nothing() {
    let chosen = cd(2021, 1, 1);
    let mut p = Placement::new("d".to_string(), "a".to_string(), Some("jpg".to_string()), &chosen, false);
    p.advance();
    let placed = p.decide_place(&"s/a.jpg".to_string(), false, true);
    assert_eq!(placed.outcome, Outcome::Moved);
    assert!(placed.renamed);
    assert!(placed.effects.is_empty());
    let dup = p.decide_duplicate(&"s/a.jpg".to_string(), false, true);
    assert_eq!(dup.outcome, Outcome::AlreadyPresent);
    assert!(dup.effects.is_empty());
    assert!(dir_effect(&"d".to_string(), false, true).is_empty());
}

#[test]
fn dir_effect_creates_only_missing_dirs() {
    let e = dir_effect(&"dest/2021/2021_01_01".to_string(), false, false);
    assert_eq!(e, vec![Effect::CreateDir { path: "dest/2021/2021_01_01".to_string() }]);
    assert!(dir_effect(&"dest/2021/2021_01_01".to_string(), true, false).is_empty());
}

// Two distinct files contending for one name: the second takes `_01`, a
// third would take `_02`; a re-run in copy mode finds the placed file again.
#[test]
fn collision_walk_scenario() {
    let chosen = cd(2021, 1, 1);
    // bucket contents by name -> content digest stand-in
    let mut bucket: HashMap<String, u8> = HashMap::new();

    let run = |bucket: &HashMap<String, u8>, h: u8| -> (Decision, String) {
        let mut p = Placement::new(
            "dest/2021/2021_01_01".to_string(),
            "a".to_string(),
            Some("jpg".to_string()),
            &chosen,
            false,
        );
        loop {
            let name = p.current_name();
            match bucket.get(&name) {
                None => return (p.decide_place(&"s/a.jpg".to_string(), true, false), name),
                Some(&other) if other == h => {
                    return (p.decide_duplicate(&"s/a.jpg".to_string(), true, false), name)
                }
                Some(_) => p.advance(),
            }
        }
    };

    let (d1, n1) = run(&bucket, 7);
    assert_eq!(d1.outcome, Outcome::Copied);
    assert!(!d1.renamed);
    assert_eq!(n1, "a.jpg");
    bucket.insert(n1, 7);

    // a distinct file under the same name gets the next suffix
    let (d2, n2) = run(&bucket, 8);
    assert_eq!(d2.outcome, Outcome::Copied);
    assert!(d2.renamed);
    assert_eq!(n2, "a_01.jpg");
    bucket.insert(n2, 8);

    let (d3, n3) = run(&bucket, 9);
    assert_eq!(n3, "a_02.jpg");
    assert!(d3.renamed);
    bucket.insert(n3, 9);

    // the same content again: found where it was placed, nothing to do
    let (d4, n4) = run(&bucket, 8);
    assert_eq!(d4.outcome, Outcome::AlreadyPresent);
    assert_eq!(n4, "a_01.jpg");
    assert!(d4.effects.is_empty());
}

// Same bytes arriving under the same name in move mode: the engine reports
// the file as already present and asks for the source's deletion only.
#[test]
fn duplicate_move_scenario() {
    let chosen = cd(2021, 1, 1);
    let p = Placement::new(
        "dest/2021/2021_01_01".to_string(),
        "a".to_string(),
        Some("jpg".to_string()),
        &chosen,
        false,
    );
    // destination already holds a.jpg with identical content
    let d = p.decide_duplicate(&"other/a.jpg".to_string(), false, false);
    assert_eq!(d.outcome, Outcome::AlreadyPresent);
    assert_eq!(d.effects, vec![Effect::DeleteFile { path: "other/a.jpg".to_string() }]);
}

// The filename-only scenario end to end: stem IMG_20190426_102645, no
// metadata date, placed under dest/2019/2019_04_26 with its original name.
#[test]
fn filename_only_placement_scenario() {
    let fname = imgsort::extract::extract_date_from_filename("IMG_20190426_102645");
    let res = reconcile(&None, &fname, false);
    let chosen = match res {
        Resolution::Use { chosen, rename } => {
            assert!(!rename);
            chosen
        }
        _ => panic!("expected a usable date"),
    };
    assert_eq!(chosen.date, Date::checked(2019, 4, 26).unwrap());
    let prefix = imgsort::date::dir_prefix(&chosen.date);
    let (bucket, create) = resolve_bucket(&Vec::new(), &prefix);
    assert!(create);
    let year = imgsort::date::year_name(&chosen.date);
    let dir_path = join_path(&join_path("dest", &year), &bucket);
    assert_eq!(dir_path, "dest/2019/2019_04_26");
    let p = Placement::new(
        dir_path,
        "IMG_20190426_102645".to_string(),
        Some("jpg".to_string()),
        &chosen,
        false,
    );
    assert_eq!(p.current_path(), "dest/2019/2019_04_26/IMG_20190426_102645.jpg");
    let d = p.decide_place(&"src/IMG_20190426_102645.jpg".to_string(), false, false);
    assert_eq!(d.outcome, Outcome::Moved);
    assert!(!d.renamed);
}

#[test]
fn apply_outcome_updates_counters() {
    let mut s = Stats::new();
    apply_outcome(&mut s, Outcome::Copied, false);
    apply_outcome(&mut s, Outcome::Moved, true);
    apply_outcome(&mut s, Outcome::AlreadyPresent, false);
    apply_outcome(&mut s, Outcome::Skipped, false);
    assert_eq!(s.tot, 4);
    assert_eq!(s.copied, 1);
    assert_eq!(s.moved, 1);
    assert_eq!(s.already_present, 1);
    assert_eq!(s.skipped, 1);
    assert_eq!(s.renamed, 1);
}

#[test]
fn count_mode_tallies_extensions() {
    let mut s = Stats::new();
    let mut t = ExtensionTally::new();
    count_extension_step(&mut s, &mut t, &Some("jpg".to_string()));
    count_extension_step(&mut s, &mut t, &Some("jpg".to_string()));
    count_extension_step(&mut s, &mut t, &Some("mp4".to_string()));
    count_extension_step(&mut s, &mut t, &None);
    assert_eq!(s.tot, 4);
    assert_eq!(s.copied + s.moved + s.already_present + s.skipped, 0);
    let entries = t.entries();
    let mut jpg = 0;
    let mut mp4 = 0;
    let mut none = 0;
    for (k, c) in entries.iter() {
        match k {
            Some(e) if e == "jpg" => jpg = *c,
            Some(e) if e == "mp4" => mp4 = *c,
            None => none = *c,
            _ => panic!("unexpected key"),
        }
    }
    assert_eq!(jpg, 2);
    assert_eq!(mp4, 1);
    assert_eq!(none, 1);
}
