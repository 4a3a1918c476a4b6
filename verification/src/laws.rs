//! The engine's governing laws, stated over a model of one file's
//! processing and proved from the same specification functions that the
//! executable functions are verified against.

use vstd::prelude::*;
use crate::date::{canonical_stem_spec, dir_prefix_spec, year_name_spec, CandidateDate};
use crate::engine::{
    dir_effect_spec, duplicate_decision, name_spec, place_decision, reconcile_spec, EffectModel,
    Outcome, Resolution,
};
use crate::resolver::{bucket_matches, find_bucket, resolve_bucket_spec};
use crate::text::{dec_pad2_spec, lemma_dec_len, lemma_dec_pad2_injective};

verus! {

// ---------------------------------------------------------------------------
// Candidate names never collide with each other
// ---------------------------------------------------------------------------

/// Distinct collision counters always yield distinct candidate names, so a
/// suffix is never reused.
pub proof fn lemma_name_spec_injective(
    stem: Seq<char>,
    ext: Option<Seq<char>>,
    c1: nat,
    c2: nat,
)
    requires
        c1 != c2,
    ensures
        name_spec(stem, ext, c1) != name_spec(stem, ext, c2),
{
    let e = match ext {
        None => Seq::<char>::empty(),
        Some(x) => seq!['.'] + x,
    };
    if c1 != 0 {
        lemma_dec_len(c1);
    }
    if c2 != 0 {
        lemma_dec_len(c2);
    }
    if name_spec(stem, ext, c1) == name_spec(stem, ext, c2) {
        if c1 == 0 || c2 == 0 {
            assert(name_spec(stem, ext, c1).len() != name_spec(stem, ext, c2).len());
            assert(false);
        } else {
            let p1 = dec_pad2_spec(c1);
            let p2 = dec_pad2_spec(c2);
            assert(name_spec(stem, ext, c1).len() == stem.len() + 1 + p1.len() + e.len());
            assert(name_spec(stem, ext, c2).len() == stem.len() + 1 + p2.len() + e.len());
            assert(p1.len() == p2.len());
            let lo = stem.len() as int + 1;
            let hi = lo + p1.len() as int;
            assert(p1 =~= name_spec(stem, ext, c1).subrange(lo, hi));
            assert(p2 =~= name_spec(stem, ext, c2).subrange(lo, hi));
            lemma_dec_pad2_injective(c1, c2);
            assert(false);
        }
    }
}

// ---------------------------------------------------------------------------
// The collision walk over a model of the bucket directory
// ---------------------------------------------------------------------------

/// How one file's collision walk ends.
pub enum RunResult {
    /// The candidate at this counter held content with the source's digest.
    Duplicate(nat),
    /// The candidate at this counter was free.
    Placed(nat),
    /// The walk did not finish within the given bound.
    Unbounded,
}

/// The collision walk over a model of the bucket directory: `dir` maps each
/// occupied file name to the digest of its content, and `h` is the digest
/// of the source's content.  Starting at counter `c`, the walk stops at the
/// first candidate name that is free or holds equal content.
pub open spec fn run_spec(
    dir: Map<Seq<char>, Seq<u8>>,
    h: Seq<u8>,
    stem: Seq<char>,
    ext: Option<Seq<char>>,
    c: nat,
    fuel: nat,
) -> RunResult
    decreases fuel,
{
    if fuel == 0 {
        RunResult::Unbounded
    } else {
        let nm = name_spec(stem, ext, c);
        if !dir.contains_key(nm) {
            RunResult::Placed(c)
        } else if dir[nm] == h {
            RunResult::Duplicate(c)
        } else {
            run_spec(dir, h, stem, ext, c + 1, (fuel - 1) as nat)
        }
    }
}

/// The walk never looks backwards: it ends at or after the counter it
/// starts from.
pub proof fn lemma_run_counter_lower_bound(
    dir: Map<Seq<char>, Seq<u8>>,
    h: Seq<u8>,
    stem: Seq<char>,
    ext: Option<Seq<char>>,
    c: nat,
    fuel: nat,
)
    ensures
        run_spec(dir, h, stem, ext, c, fuel) matches RunResult::Placed(k) ==> k >= c,
        run_spec(dir, h, stem, ext, c, fuel) matches RunResult::Duplicate(k) ==> k >= c,
    decreases fuel,
{
    if fuel > 0 {
        let nm = name_spec(stem, ext, c);
        if dir.contains_key(nm) && dir[nm] != h {
            lemma_run_counter_lower_bound(dir, h, stem, ext, c + 1, (fuel - 1) as nat);
        }
    }
}

/// Suffixes are taken in increasing order: when every candidate below `k`
/// is occupied by different content and the candidate at `k` is free, the
/// walk places the file exactly at `k`.
pub proof fn lemma_run_places_first_free(
    dir: Map<Seq<char>, Seq<u8>>,
    h: Seq<u8>,
    stem: Seq<char>,
    ext: Option<Seq<char>>,
    c: nat,
    k: nat,
    fuel: nat,
)
    requires
        c <= k,
        fuel > k - c,
        !dir.contains_key(name_spec(stem, ext, k)),
        forall|i: nat|
            c <= i < k ==> dir.contains_key(#[trigger] name_spec(stem, ext, i)) && dir[name_spec(
                stem,
                ext,
                i,
            )] != h,
    ensures
        run_spec(dir, h, stem, ext, c, fuel) == RunResult::Placed(k),
    decreases k - c,
{
    if c == k {
        assert(run_spec(dir, h, stem, ext, c, fuel) == RunResult::Placed(c));
    } else {
        assert(dir.contains_key(name_spec(stem, ext, c)) && dir[name_spec(stem, ext, c)] != h);
        lemma_run_places_first_free(dir, h, stem, ext, c + 1, k, (fuel - 1) as nat);
    }
}

/// Re-running the walk after the placed file has appeared in the bucket
/// finds it as a duplicate, at the same counter.
pub proof fn lemma_run_idempotent(
    dir: Map<Seq<char>, Seq<u8>>,
    h: Seq<u8>,
    stem: Seq<char>,
    ext: Option<Seq<char>>,
    c: nat,
    k: nat,
    fuel: nat,
)
    requires
        run_spec(dir, h, stem, ext, c, fuel) == RunResult::Placed(k),
    ensures
        run_spec(dir.insert(name_spec(stem, ext, k), h), h, stem, ext, c, fuel)
            == RunResult::Duplicate(k),
    decreases fuel,
{
    let nm = name_spec(stem, ext, c);
    let nmk = name_spec(stem, ext, k);
    let dir2 = dir.insert(nmk, h);
    if !dir.contains_key(nm) {
        assert(k == c);
        assert(dir2.contains_key(nm) && dir2[nm] == h);
    } else if dir[nm] == h {
        assert(false);
    } else {
        lemma_run_counter_lower_bound(dir, h, stem, ext, c + 1, (fuel - 1) as nat);
        assert(k >= c + 1);
        lemma_name_spec_injective(stem, ext, c, k);
        assert(nm != nmk);
        assert(dir2.contains_key(nm) && dir2[nm] == dir[nm]);
        lemma_run_idempotent(dir, h, stem, ext, c + 1, k, (fuel - 1) as nat);
    }
}

/// The walk from a counter never looks at the candidate name of an earlier
/// counter, so removing that name from the bucket changes nothing.
proof fn lemma_run_ignores_removed(
    dir: Map<Seq<char>, Seq<u8>>,
    h: Seq<u8>,
    stem: Seq<char>,
    ext: Option<Seq<char>>,
    c0: nat,
    c: nat,
    fuel: nat,
)
    requires
        c > c0,
    ensures
        run_spec(dir.remove(name_spec(stem, ext, c0)), h, stem, ext, c, fuel) == run_spec(
            dir,
            h,
            stem,
            ext,
            c,
            fuel,
        ),
    decreases fuel,
{
    if fuel > 0 {
        lemma_name_spec_injective(stem, ext, c0, c);
        let nm = name_spec(stem, ext, c);
        if dir.contains_key(nm) && dir[nm] != h {
            lemma_run_ignores_removed(dir, h, stem, ext, c0, c + 1, (fuel - 1) as nat);
        }
    }
}

/// The walk always finds a free or duplicate slot: a fuel bound larger than
/// the number of occupied names in the bucket suffices, whatever the
/// counter it starts from.
pub proof fn lemma_run_completes(
    dir: Map<Seq<char>, Seq<u8>>,
    h: Seq<u8>,
    stem: Seq<char>,
    ext: Option<Seq<char>>,
    c: nat,
    fuel: nat,
)
    requires
        dir.dom().finite(),
        fuel > dir.dom().len(),
    ensures
        run_spec(dir, h, stem, ext, c, fuel) != RunResult::Unbounded,
    decreases fuel,
{
    broadcast use vstd::set::group_set_axioms;
    broadcast use vstd::map::group_map_axioms;

    let nm = name_spec(stem, ext, c);
    if dir.contains_key(nm) && dir[nm] != h {
        let dir2 = dir.remove(nm);
        assert(dir2.dom() == dir.dom().remove(nm));
        vstd::set::axiom_set_remove_len(dir.dom(), nm);
        assert(dir2.dom().len() == dir.dom().len() - 1);
        lemma_run_completes(dir2, h, stem, ext, c + 1, (fuel - 1) as nat);
        lemma_run_ignores_removed(dir, h, stem, ext, c, c + 1, (fuel - 1) as nat);
    }
}

// ---------------------------------------------------------------------------
// The bucket directory is reused, never duplicated
// ---------------------------------------------------------------------------

proof fn lemma_find_bucket_correct(listing: Seq<Seq<char>>, prefix: Seq<char>, i: int)
    ensures
        find_bucket(listing, prefix, i) matches Some(j) ==> i <= j < listing.len()
            && bucket_matches(listing[j], prefix),
    decreases listing.len() - i,
{
    if 0 <= i < listing.len() && !bucket_matches(listing[i], prefix) {
        lemma_find_bucket_correct(listing, prefix, i + 1);
    }
}

proof fn lemma_find_bucket_finds(listing: Seq<Seq<char>>, prefix: Seq<char>, i: int, j: int)
    requires
        0 <= i <= j < listing.len(),
        bucket_matches(listing[j], prefix),
    ensures
        find_bucket(listing, prefix, i) is Some,
    decreases j - i,
{
    if !bucket_matches(listing[i], prefix) {
        lemma_find_bucket_finds(listing, prefix, i + 1, j);
    }
}

/// The chosen bucket always serves the date prefix, and when some existing
/// directory already serves it — the bare prefix or a suffixed variant —
/// that directory is reused and no fresh one is created.
pub proof fn lemma_existing_bucket_reused(listing: Seq<Seq<char>>, prefix: Seq<char>)
    ensures
        bucket_matches(resolve_bucket_spec(listing, prefix).0, prefix),
        (exists|j: int|
            0 <= j < listing.len() && bucket_matches(#[trigger] listing[j], prefix))
            ==> resolve_bucket_spec(listing, prefix).1 == false && (exists|j: int|
            0 <= j < listing.len() && resolve_bucket_spec(listing, prefix).0 == #[trigger] listing[j]),
{
    lemma_find_bucket_correct(listing, prefix, 0);
    if exists|j: int| 0 <= j < listing.len() && bucket_matches(#[trigger] listing[j], prefix) {
        let j = choose|j: int|
            0 <= j < listing.len() && bucket_matches(#[trigger] listing[j], prefix);
        lemma_find_bucket_finds(listing, prefix, 0, j);
    }
}

// ---------------------------------------------------------------------------
// One file's processing, end to end
// ---------------------------------------------------------------------------

/// The abstract result of processing one file.
pub struct ProcessModel {
    /// The terminal outcome recorded in the statistics.
    pub outcome: Outcome,
    /// Whether the file ends up under a new name.
    pub renamed: bool,
    /// The bucket directory name chosen under the year directory.
    pub bucket: Seq<char>,
    /// The full path of the bucket directory.
    pub dir_path: Seq<char>,
    /// The stem the candidate names are built from.
    pub stem_used: Seq<char>,
    /// The collision counter the file was placed at, when it was placed.
    pub placed_counter: Option<nat>,
    /// The filesystem mutations of this file's processing, in order.
    pub effects: Seq<EffectModel>,
}

/// One file's processing, end to end: reconcile the extracted dates, name
/// the bucket under the destination root, walk the collision candidates,
/// and decide.  `listing` holds the names present in the year directory,
/// `dir_exists` whether the bucket directory already exists, `dir` the
/// bucket's contents by digest, and `h` the source's digest.  `None` stands
/// for a walk that exceeds its fuel bound.
pub open spec fn process_spec(
    meta: Option<CandidateDate>,
    fname: Option<CandidateDate>,
    prefer_metadata: bool,
    copy_mode: bool,
    dry_run: bool,
    root: Seq<char>,
    listing: Seq<Seq<char>>,
    dir_exists: bool,
    dir: Map<Seq<char>, Seq<u8>>,
    h: Seq<u8>,
    source_path: Seq<char>,
    stem: Seq<char>,
    ext: Option<Seq<char>>,
    fuel: nat,
) -> Option<ProcessModel> {
    match reconcile_spec(meta, fname, prefer_metadata) {
        Resolution::Skip { reason } => Some(
            ProcessModel {
                outcome: Outcome::Skipped,
                renamed: false,
                bucket: Seq::<char>::empty(),
                dir_path: Seq::<char>::empty(),
                stem_used: stem,
                placed_counter: None,
                effects: Seq::<EffectModel>::empty(),
            },
        ),
        Resolution::Use { chosen, rename } => {
            let stem_used = if rename {
                canonical_stem_spec(chosen)
            } else {
                stem
            };
            let renamed_base = rename && stem_used != stem;
            let prefix = dir_prefix_spec(chosen.date);
            let rb = resolve_bucket_spec(listing, prefix);
            let dirp = root + seq!['/'] + year_name_spec(chosen.date) + seq!['/'] + rb.0;
            let create = dir_effect_spec(dirp, dir_exists, dry_run);
            match run_spec(dir, h, stem_used, ext, 0, fuel) {
                RunResult::Unbounded => None,
                RunResult::Duplicate(k) => {
                    let d = duplicate_decision(source_path, copy_mode, dry_run);
                    Some(
                        ProcessModel {
                            outcome: d.outcome,
                            renamed: d.renamed,
                            bucket: rb.0,
                            dir_path: dirp,
                            stem_used,
                            placed_counter: None,
                            effects: create + d.effects,
                        },
                    )
                },
                RunResult::Placed(k) => {
                    let target = dirp + seq!['/'] + name_spec(stem_used, ext, k);
                    let d = place_decision(
                        source_path,
                        target,
                        k > 0 || renamed_base,
                        copy_mode,
                        dry_run,
                    );
                    Some(
                        ProcessModel {
                            outcome: d.outcome,
                            renamed: d.renamed,
                            bucket: rb.0,
                            dir_path: dirp,
                            stem_used,
                            placed_counter: Some(k),
                            effects: create + d.effects,
                        },
                    )
                },
            }
        },
    }
}

/// With only a metadata date present, the chosen date is the metadata date,
/// kept with its time precision and without a rename.
pub proof fn lemma_metadata_only_uses_metadata(m: CandidateDate, prefer_metadata: bool)
    ensures
        reconcile_spec(Some(m), None, prefer_metadata) == (Resolution::Use {
            chosen: m,
            rename: false,
        }),
{
}

/// When the two sources agree on the calendar date, the file is processed
/// under the bucket of that shared date: the chosen bucket serves its
/// `YYYY_MM_DD` prefix and lies under its year directory.
pub proof fn lemma_agreeing_dates_share_bucket(
    m: CandidateDate,
    f: CandidateDate,
    prefer_metadata: bool,
    copy_mode: bool,
    dry_run: bool,
    root: Seq<char>,
    listing: Seq<Seq<char>>,
    dir_exists: bool,
    dir: Map<Seq<char>, Seq<u8>>,
    h: Seq<u8>,
    source_path: Seq<char>,
    stem: Seq<char>,
    ext: Option<Seq<char>>,
    fuel: nat,
    pm: ProcessModel,
)
    requires
        m.date == f.date,
        process_spec(
            Some(m),
            Some(f),
            prefer_metadata,
            copy_mode,
            dry_run,
            root,
            listing,
            dir_exists,
            dir,
            h,
            source_path,
            stem,
            ext,
            fuel,
        ) == Some(pm),
    ensures
        bucket_matches(pm.bucket, dir_prefix_spec(m.date)),
        pm.dir_path == root + seq!['/'] + year_name_spec(m.date) + seq!['/'] + pm.bucket,
        pm.outcome != Outcome::Skipped,
        pm.stem_used == stem,
        !pm.renamed || (pm.placed_counter matches Some(k) && k > 0),
{
    lemma_existing_bucket_reused(listing, dir_prefix_spec(m.date));
}

/// A date conflict under the skip policy: the file is skipped and no
/// filesystem mutation is asked for.
pub proof fn lemma_conflict_skips(
    m: CandidateDate,
    f: CandidateDate,
    copy_mode: bool,
    dry_run: bool,
    root: Seq<char>,
    listing: Seq<Seq<char>>,
    dir_exists: bool,
    dir: Map<Seq<char>, Seq<u8>>,
    h: Seq<u8>,
    source_path: Seq<char>,
    stem: Seq<char>,
    ext: Option<Seq<char>>,
    fuel: nat,
)
    requires
        m.date != f.date,
    ensures
        process_spec(
            Some(m),
            Some(f),
            false,
            copy_mode,
            dry_run,
            root,
            listing,
            dir_exists,
            dir,
            h,
            source_path,
            stem,
            ext,
            fuel,
        ) matches Some(pm) && pm.outcome == Outcome::Skipped && pm.effects
            == Seq::<EffectModel>::empty() && !pm.renamed,
{
}

/// A date conflict under the prefer-metadata policy: the file is processed
/// under the metadata date's bucket, with its candidate names built from
/// the canonical `YYYYMMDD_HHMMSS` stem of the metadata timestamp.
pub proof fn lemma_conflict_prefers_metadata(
    m: CandidateDate,
    f: CandidateDate,
    copy_mode: bool,
    dry_run: bool,
    root: Seq<char>,
    listing: Seq<Seq<char>>,
    dir_exists: bool,
    dir: Map<Seq<char>, Seq<u8>>,
    h: Seq<u8>,
    source_path: Seq<char>,
    stem: Seq<char>,
    ext: Option<Seq<char>>,
    fuel: nat,
    pm: ProcessModel,
)
    requires
        m.date != f.date,
        process_spec(
            Some(m),
            Some(f),
            true,
            copy_mode,
            dry_run,
            root,
            listing,
            dir_exists,
            dir,
            h,
            source_path,
            stem,
            ext,
            fuel,
        ) == Some(pm),
    ensures
        pm.stem_used == canonical_stem_spec(m),
        bucket_matches(pm.bucket, dir_prefix_spec(m.date)),
        pm.dir_path == root + seq!['/'] + year_name_spec(m.date) + seq!['/'] + pm.bucket,
        pm.outcome != Outcome::Skipped,
{
    lemma_existing_bucket_reused(listing, dir_prefix_spec(m.date));
}

/// Idempotence in copy mode: after a run has placed a file at counter `k`,
/// a second run over the grown bucket — with the bucket directory now
/// existing and resolving to the same name — finds the file already
/// present and asks for no mutation at all.
pub proof fn lemma_copy_rerun_already_present(
    meta: Option<CandidateDate>,
    fname: Option<CandidateDate>,
    prefer_metadata: bool,
    dry_run: bool,
    root: Seq<char>,
    listing1: Seq<Seq<char>>,
    listing2: Seq<Seq<char>>,
    dir_exists1: bool,
    dir: Map<Seq<char>, Seq<u8>>,
    h: Seq<u8>,
    source_path: Seq<char>,
    stem: Seq<char>,
    ext: Option<Seq<char>>,
    fuel: nat,
    pm: ProcessModel,
    chosen: CandidateDate,
    rename: bool,
    k: nat,
)
    requires
        reconcile_spec(meta, fname, prefer_metadata) == (Resolution::Use { chosen, rename }),
        process_spec(
            meta,
            fname,
            prefer_metadata,
            true,
            dry_run,
            root,
            listing1,
            dir_exists1,
            dir,
            h,
            source_path,
            stem,
            ext,
            fuel,
        ) == Some(pm),
        pm.placed_counter == Some(k),
        resolve_bucket_spec(listing2, dir_prefix_spec(chosen.date)) == resolve_bucket_spec(
            listing1,
            dir_prefix_spec(chosen.date),
        ),
    ensures
        process_spec(
            meta,
            fname,
            prefer_metadata,
            true,
            dry_run,
            root,
            listing2,
            true,
            dir.insert(name_spec(pm.stem_used, ext, k), h),
            h,
            source_path,
            stem,
            ext,
            fuel,
        ) matches Some(pm2) && pm2.outcome == Outcome::AlreadyPresent && pm2.effects
            == Seq::<EffectModel>::empty() && pm2.placed_counter is None && pm2.dir_path
            == pm.dir_path,
{
    let stem_used = if rename {
        canonical_stem_spec(chosen)
    } else {
        stem
    };
    assert(pm.stem_used == stem_used);
    assert(run_spec(dir, h, stem_used, ext, 0, fuel) == RunResult::Placed(k));
    lemma_run_idempotent(dir, h, stem_used, ext, 0, k, fuel);
}

/// A dry run computes exactly the outcome a real run would take — outcome,
/// rename, bucket, stem and counter all agree — but asks for no mutation.
pub proof fn lemma_dry_run_faithful(
    meta: Option<CandidateDate>,
    fname: Option<CandidateDate>,
    prefer_metadata: bool,
    copy_mode: bool,
    root: Seq<char>,
    listing: Seq<Seq<char>>,
    dir_exists: bool,
    dir: Map<Seq<char>, Seq<u8>>,
    h: Seq<u8>,
    source_path: Seq<char>,
    stem: Seq<char>,
    ext: Option<Seq<char>>,
    fuel: nat,
)
    ensures
        process_spec(
            meta,
            fname,
            prefer_metadata,
            copy_mode,
            true,
            root,
            listing,
            dir_exists,
            dir,
            h,
            source_path,
            stem,
            ext,
            fuel,
        ) is Some == process_spec(
            meta,
            fname,
            prefer_metadata,
            copy_mode,
            false,
            root,
            listing,
            dir_exists,
            dir,
            h,
            source_path,
            stem,
            ext,
            fuel,
        ) is Some,
        process_spec(
            meta,
            fname,
            prefer_metadata,
            copy_mode,
            true,
            root,
            listing,
            dir_exists,
            dir,
            h,
            source_path,
            stem,
            ext,
            fuel,
        ) matches Some(dry) ==> dry.effects == Seq::<EffectModel>::empty() && {
            let wet = process_spec(
                meta,
                fname,
                prefer_metadata,
                copy_mode,
                false,
                root,
                listing,
                dir_exists,
                dir,
                h,
                source_path,
                stem,
                ext,
                fuel,
            )->0;
            dry.outcome == wet.outcome && dry.renamed == wet.renamed && dry.bucket == wet.bucket
                && dry.dir_path == wet.dir_path && dry.stem_used == wet.stem_used
                && dry.placed_counter == wet.placed_counter
        },
{
}

} // verus!
