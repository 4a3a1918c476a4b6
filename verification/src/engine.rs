//! The placement engine: reconciling the two date sources, naming collision
//! candidates, and turning each terminal decision into an outcome and an
//! explicit list of filesystem effects.

use vstd::prelude::*;
use crate::date::{canonical_stem_spec, CandidateDate};
use crate::resolver::str_eq;
use crate::stats::Stats;
use crate::text::{dec_pad2_spec, push_dec_pad2};

verus! {

/// Why a file was skipped.
#[derive(Clone, Copy, PartialEq, Eq, Structural, Debug)]
pub enum SkipReason {
    /// Neither the metadata nor the filename yielded a date.
    NoDate,
    /// The two sources disagree on the calendar date and the policy does
    /// not prefer the metadata.
    DateConflict,
}

/// What the reconciliation of the two date sources decided.
#[derive(Clone, Copy, Debug)]
pub enum Resolution {
    /// Process the file under `chosen`; `rename` asks for the canonical
    /// timestamp name.
    Use { chosen: CandidateDate, rename: bool },
    /// Do not process the file.
    Skip { reason: SkipReason },
}

/// The terminal outcome recorded for a processed file.
#[derive(Clone, Copy, PartialEq, Eq, Structural, Debug)]
pub enum Outcome {
    Copied,
    Moved,
    AlreadyPresent,
    Skipped,
}

/// A filesystem mutation the caller is asked to perform.
#[derive(PartialEq, Debug)]
pub enum Effect {
    CreateDir { path: String },
    CopyFile { from: String, to: String },
    MoveFile { from: String, to: String },
    DeleteFile { path: String },
}

/// The abstract value of an `Effect`, over character sequences.
pub enum EffectModel {
    CreateDir(Seq<char>),
    CopyFile(Seq<char>, Seq<char>),
    MoveFile(Seq<char>, Seq<char>),
    DeleteFile(Seq<char>),
}

pub open spec fn effect_model(e: Effect) -> EffectModel {
    match e {
        Effect::CreateDir { path } => EffectModel::CreateDir(path@),
        Effect::CopyFile { from, to } => EffectModel::CopyFile(from@, to@),
        Effect::MoveFile { from, to } => EffectModel::MoveFile(from@, to@),
        Effect::DeleteFile { path } => EffectModel::DeleteFile(path@),
    }
}

/// A terminal decision for one file: the outcome to record, whether the
/// file ends up under a new name, and the mutations to perform.
pub struct Decision {
    pub outcome: Outcome,
    pub renamed: bool,
    pub effects: Vec<Effect>,
}

impl Decision {
    /// The abstract value of the decision.
    pub open spec fn model(self) -> DecisionModel {
        DecisionModel {
            outcome: self.outcome,
            renamed: self.renamed,
            effects: self.effects@.map_values(|e: Effect| effect_model(e)),
        }
    }
}

/// The abstract value of a `Decision`.
pub struct DecisionModel {
    pub outcome: Outcome,
    pub renamed: bool,
    pub effects: Seq<EffectModel>,
}

// ---------------------------------------------------------------------------
// Reconciliation
// ---------------------------------------------------------------------------

/// How the two date sources are reconciled:
/// - both absent: skip, no date;
/// - exactly one present: use it;
/// - both present with the same calendar date: use the metadata result,
///   which keeps its time precision;
/// - both present with different calendar dates: adopt the metadata date
///   and ask for the canonical rename when the policy prefers metadata,
///   else skip as a conflict.
pub open spec fn reconcile_spec(
    meta: Option<CandidateDate>,
    fname: Option<CandidateDate>,
    prefer_metadata: bool,
) -> Resolution {
    match (meta, fname) {
        (None, None) => Resolution::Skip { reason: SkipReason::NoDate },
        (Some(m), None) => Resolution::Use { chosen: m, rename: false },
        (None, Some(f)) => Resolution::Use { chosen: f, rename: false },
        (Some(m), Some(f)) => {
            if m.date == f.date {
                Resolution::Use { chosen: m, rename: false }
            } else if prefer_metadata {
                Resolution::Use { chosen: m, rename: true }
            } else {
                Resolution::Skip { reason: SkipReason::DateConflict }
            }
        },
    }
}

/// Reconciles the dates the two extractors yielded.
pub fn reconcile(
    meta: &Option<CandidateDate>,
    fname: &Option<CandidateDate>,
    prefer_metadata: bool,
) -> (r: Resolution)
    ensures
        r == reconcile_spec(*meta, *fname, prefer_metadata),
{
    match (meta, fname) {
        (None, None) => Resolution::Skip { reason: SkipReason::NoDate },
        (Some(m), None) => Resolution::Use { chosen: *m, rename: false },
        (None, Some(f)) => Resolution::Use { chosen: *f, rename: false },
        (Some(m), Some(f)) => {
            if m.date == f.date {
                Resolution::Use { chosen: *m, rename: false }
            } else if prefer_metadata {
                Resolution::Use { chosen: *m, rename: true }
            } else {
                Resolution::Skip { reason: SkipReason::DateConflict }
            }
        },
    }
}

// ---------------------------------------------------------------------------
// Candidate names and the collision machine
// ---------------------------------------------------------------------------

pub open spec fn ext_view(ext: Option<String>) -> Option<Seq<char>> {
    match ext {
        Some(e) => Some(e@),
        None => None,
    }
}

/// The candidate file name for collision counter `c`: the stem, then the
/// `_NN` suffix when `c` is nonzero, then the extension.
pub open spec fn name_spec(stem: Seq<char>, ext: Option<Seq<char>>, c: nat) -> Seq<char> {
    (if c == 0 {
        stem
    } else {
        stem + seq!['_'] + dec_pad2_spec(c)
    }) + (match ext {
        None => Seq::<char>::empty(),
        Some(e) => seq!['.'] + e,
    })
}

/// The per-file collision state: the bucket directory, the stem the file is
/// to be placed under, and the suffix counter that walks the candidate
/// names.
pub struct Placement {
    pub dir_path: String,
    pub stem: String,
    pub ext: Option<String>,
    pub counter: u32,
    pub renamed_base: bool,
}

impl Placement {
    /// The file name probed at the current counter.
    pub open spec fn current_name_spec(self) -> Seq<char> {
        name_spec(self.stem@, ext_view(self.ext), self.counter as nat)
    }

    /// The full path probed at the current counter.
    pub open spec fn current_path_spec(self) -> Seq<char> {
        self.dir_path@ + seq!['/'] + self.current_name_spec()
    }

    /// Whether placing here records a rename: a nonzero suffix, or a
    /// canonical stem that differs from the original name.
    pub open spec fn renames(self) -> bool {
        self.counter > 0 || self.renamed_base
    }

    /// Starts the collision walk for a file, under the canonical timestamp
    /// stem when the reconciliation asked for a rename.
    pub fn new(
        dir_path: String,
        original_stem: String,
        ext: Option<String>,
        chosen: &CandidateDate,
        rename: bool,
    ) -> (r: Placement)
        requires
            rename ==> chosen.valid(),
        ensures
            r.dir_path == dir_path,
            r.ext == ext,
            r.counter == 0,
            r.stem@ == if rename {
                canonical_stem_spec(*chosen)
            } else {
                original_stem@
            },
            r.renamed_base == (rename && canonical_stem_spec(*chosen) != original_stem@),
    {
        if rename {
            let stem = crate::date::canonical_stem(chosen);
            let same = str_eq(stem.as_str(), original_stem.as_str());
            Placement { dir_path, stem, ext, counter: 0, renamed_base: !same }
        } else {
            Placement { dir_path, stem: original_stem, ext, counter: 0, renamed_base: false }
        }
    }

    /// The candidate file name at the current counter.
    pub fn current_name(&self) -> (r: String)
        ensures
            r@ == self.current_name_spec(),
    {
        proof {
            reveal_strlit("_");
            reveal_strlit(".");
        }
        let mut s = String::from_str(self.stem.as_str());
        if self.counter > 0 {
            s.append("_");
            push_dec_pad2(&mut s, self.counter);
        }
        match &self.ext {
            Some(e) => {
                s.append(".");
                s.append(e.as_str());
            },
            None => {},
        }
        proof {
            assert(s@ =~= self.current_name_spec());
        }
        s
    }

    /// The candidate path at the current counter.
    pub fn current_path(&self) -> (r: String)
        ensures
            r@ == self.current_path_spec(),
    {
        let name = self.current_name();
        crate::text::join_path(self.dir_path.as_str(), name.as_str())
    }

    /// A same-named file with different content occupies the candidate
    /// slot: step to the next suffix.  The counter only ever grows, so no
    /// suffix is ever reused.
    pub fn advance(&mut self)
        requires
            old(self).counter < u32::MAX,
        ensures
            final(self).counter == old(self).counter + 1,
            final(self).dir_path == old(self).dir_path,
            final(self).stem == old(self).stem,
            final(self).ext == old(self).ext,
            final(self).renamed_base == old(self).renamed_base,
    {
        self.counter = self.counter + 1;
    }

    /// The candidate slot holds a file with the same content: the source is
    /// a duplicate.  In move mode the source is deleted; a dry run deletes
    /// nothing.
    pub fn decide_duplicate(&self, source_path: &String, copy_mode: bool, dry_run: bool) -> (d:
        Decision)
        ensures
            d.model() == duplicate_decision(source_path@, copy_mode, dry_run),
    {
        let effects: Vec<Effect> = if copy_mode || dry_run {
            Vec::new()
        } else {
            vec![Effect::DeleteFile { path: source_path.clone() }]
        };
        let d = Decision { outcome: Outcome::AlreadyPresent, renamed: false, effects };
        proof {
            assert(d.model().effects =~= duplicate_decision(
                source_path@,
                copy_mode,
                dry_run,
            ).effects);
        }
        d
    }

    /// The candidate slot is free: place the file here, by copy or by move;
    /// a dry run mutates nothing but records the same outcome.
    pub fn decide_place(&self, source_path: &String, copy_mode: bool, dry_run: bool) -> (d:
        Decision)
        ensures
            d.model() == place_decision(
                source_path@,
                self.current_path_spec(),
                self.renames(),
                copy_mode,
                dry_run,
            ),
    {
        let target = self.current_path();
        let renamed = self.counter > 0 || self.renamed_base;
        let effects: Vec<Effect> = if dry_run {
            Vec::new()
        } else if copy_mode {
            vec![Effect::CopyFile { from: source_path.clone(), to: target }]
        } else {
            vec![Effect::MoveFile { from: source_path.clone(), to: target }]
        };
        let outcome = if copy_mode {
            Outcome::Copied
        } else {
            Outcome::Moved
        };
        let d = Decision { outcome, renamed, effects };
        proof {
            assert(d.model().effects =~= place_decision(
                source_path@,
                self.current_path_spec(),
                self.renames(),
                copy_mode,
                dry_run,
            ).effects);
        }
        d
    }
}

/// The decision for a duplicate at the current candidate slot.
pub open spec fn duplicate_decision(
    source: Seq<char>,
    copy_mode: bool,
    dry_run: bool,
) -> DecisionModel {
    DecisionModel {
        outcome: Outcome::AlreadyPresent,
        renamed: false,
        effects: if copy_mode || dry_run {
            Seq::<EffectModel>::empty()
        } else {
            seq![EffectModel::DeleteFile(source)]
        },
    }
}

/// The decision for a free candidate slot.
pub open spec fn place_decision(
    source: Seq<char>,
    target: Seq<char>,
    renamed: bool,
    copy_mode: bool,
    dry_run: bool,
) -> DecisionModel {
    DecisionModel {
        outcome: if copy_mode {
            Outcome::Copied
        } else {
            Outcome::Moved
        },
        renamed,
        effects: if dry_run {
            Seq::<EffectModel>::empty()
        } else if copy_mode {
            seq![EffectModel::CopyFile(source, target)]
        } else {
            seq![EffectModel::MoveFile(source, target)]
        },
    }
}

/// The directory-creation effect: only a missing directory is created, and
/// never in a dry run.
pub open spec fn dir_effect_spec(path: Seq<char>, already_exists: bool, dry_run: bool) -> Seq<
    EffectModel,
> {
    if already_exists || dry_run {
        Seq::<EffectModel>::empty()
    } else {
        seq![EffectModel::CreateDir(path)]
    }
}

/// Plans the creation of the bucket directory.
pub fn dir_effect(path: &String, already_exists: bool, dry_run: bool) -> (r: Vec<Effect>)
    ensures
        r@.map_values(|e: Effect| effect_model(e)) == dir_effect_spec(path@, already_exists, dry_run),
{
    let r: Vec<Effect> = if already_exists || dry_run {
        Vec::new()
    } else {
        vec![Effect::CreateDir { path: path.clone() }]
    };
    proof {
        assert(r@.map_values(|e: Effect| effect_model(e)) =~= dir_effect_spec(
            path@,
            already_exists,
            dry_run,
        ));
    }
    r
}

// ---------------------------------------------------------------------------
// Statistics
// ---------------------------------------------------------------------------

/// Records a file's terminal outcome: the total count and exactly one
/// outcome counter grow by one, and the rename counter grows alongside when
/// the file was placed under a new name.  The balance of the counters is
/// preserved.
pub fn apply_outcome(stats: &mut Stats, outcome: Outcome, renamed: bool)
    requires
        old(stats).tot < u32::MAX,
        old(stats).copied < u32::MAX,
        old(stats).moved < u32::MAX,
        old(stats).renamed < u32::MAX,
        old(stats).already_present < u32::MAX,
        old(stats).skipped < u32::MAX,
    ensures
        final(stats).tot == old(stats).tot + 1,
        final(stats).copied as int == old(stats).copied as int + (if outcome == Outcome::Copied {
            1int
        } else {
            0int
        }),
        final(stats).moved as int == old(stats).moved as int + (if outcome == Outcome::Moved {
            1int
        } else {
            0int
        }),
        final(stats).already_present as int == old(stats).already_present as int + (if outcome
            == Outcome::AlreadyPresent {
            1int
        } else {
            0int
        }),
        final(stats).skipped as int == old(stats).skipped as int + (if outcome
            == Outcome::Skipped {
            1int
        } else {
            0int
        }),
        final(stats).renamed as int == old(stats).renamed as int + (if renamed {
            1int
        } else {
            0int
        }),
        old(stats).balanced() ==> final(stats).balanced(),
{
    stats.inc_tot();
    match outcome {
        Outcome::Copied => stats.inc_copied(),
        Outcome::Moved => stats.inc_moved(),
        Outcome::AlreadyPresent => stats.inc_already_present(),
        Outcome::Skipped => stats.inc_skipped(),
    }
    if renamed {
        stats.inc_renamed();
    }
}

/// Counting mode short-circuits placement entirely: the file's extension
/// (or its absence) is tallied and only the total counter grows.
pub fn count_extension_step(
    stats: &mut Stats,
    tally: &mut crate::tally::ExtensionTally,
    ext: &Option<String>,
)
    requires
        old(stats).tot < u32::MAX,
        old(tally).wf(),
        old(tally).count_of(crate::tally::key_view(*ext)) < u32::MAX,
    ensures
        final(stats).tot == old(stats).tot + 1,
        final(stats).copied == old(stats).copied,
        final(stats).moved == old(stats).moved,
        final(stats).renamed == old(stats).renamed,
        final(stats).already_present == old(stats).already_present,
        final(stats).skipped == old(stats).skipped,
        final(tally).wf(),
        final(tally).count_of(crate::tally::key_view(*ext)) == old(tally).count_of(
            crate::tally::key_view(*ext),
        ) + 1,
        forall|k2: Option<Seq<char>>|
            k2 != crate::tally::key_view(*ext) ==> final(tally).count_of(k2) == old(
                tally,
            ).count_of(k2),
{
    stats.inc_tot();
    tally.record(ext);
}

} // verus!
