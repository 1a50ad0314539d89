//! Filing the videos of a directory tree, one after the other: those of a new directory into
//! the index as it stands, those of a full scan into a cleared one.

use crate::index;
use crate::index::types;
use crate::index::IndexView;
use crate::metadata::{Metadata, MetadataView};
use crate::paths::MediaPath;
use crate::scanner;
use crate::scanner::naming;
use crate::scanner::naming::{IndexPlan, PlanView};
use crate::scanner::{DirEntry, MediaScanner};
use vstd::prelude::*;

verus! {

/// A pass over a directory tree: the videos that were found, how many of them are done, and how many of
/// those could be filed.
#[derive(Debug)]
pub struct ScanRun {
    files: Vec<MediaPath>,
    next: usize,
    successful: usize,
    failed: usize,
}

/// What became of one video: its path, its plan if it got one, and what the movie database
/// answered.
pub ghost struct Step {
    pub path: Seq<u8>,
    pub plan: Option<PlanView>,
    pub answer: Option<MetadataView>,
}

/// Whether a video could be filed.
pub open spec fn filed(step: Step) -> bool {
    step.plan is Some && step.answer is Some
}

/// The index once a video was dealt with.
pub open spec fn after_step(index: IndexView, step: Step) -> IndexView {
    match step.plan {
        Some(plan) => scanner::after_answer(index, step.path, plan, step.answer),
        None => index,
    }
}

/// The index once these steps were taken.
pub open spec fn filled(index: IndexView, steps: Seq<Step>) -> IndexView
    decreases steps.len(),
{
    if steps.len() == 0 {
        index
    } else {
        after_step(filled(index, steps.drop_last()), steps.last())
    }
}

/// The index that these steps fill, starting from nothing.
pub open spec fn rebuilt(steps: Seq<Step>) -> IndexView {
    filled(IndexView::empty(), steps)
}

/// The file that a filed step puts into the index.
pub open spec fn step_file(step: Step) -> types::FileView {
    scanner::indexed_file(step.path, step.plan->0, step.answer->0)
}

impl ScanRun {
    #[verifier::type_invariant]
    spec fn inv(self) -> bool {
        &&& self.next <= self.files@.len()
        &&& self.successful + self.failed == self.next
    }

    /// The videos that are still to be dealt with.
    pub closed spec fn pending(&self) -> Seq<Seq<u8>> {
        scanner::path_views(self.files@).skip(self.next as int)
    }

    /// How many videos could be filed.
    pub closed spec fn successes(&self) -> nat {
        self.successful as nat
    }

    /// How many videos could not be filed.
    pub closed spec fn failures(&self) -> nat {
        self.failed as nat
    }

    /// The video to deal with next.
    pub fn next_file(&self) -> (res: Option<&MediaPath>)
        ensures
            match res {
                Some(path) => self.pending().len() > 0 && path@ == self.pending()[0],
                None => self.pending().len() == 0,
            },
    {
        proof {
            use_type_invariant(self);
        }
        if self.next < self.files.len() {
            Some(&self.files[self.next])
        } else {
            None
        }
    }

    /// How many videos could be filed, and how many could not.
    pub fn summary(&self) -> (res: (usize, usize))
        ensures
            res.0 == self.successes(),
            res.1 == self.failures(),
    {
        (self.successful, self.failed)
    }

    /// Counts one more video as dealt with.
    fn record(&mut self, success: bool)
        requires
            old(self).pending().len() > 0,
        ensures
            final(self).pending() == old(self).pending().skip(1),
            final(self).successes() == old(self).successes() + if success {
                1int
            } else {
                0int
            },
            final(self).failures() == old(self).failures() + if success {
                0int
            } else {
                1int
            },
    {
        proof {
            use_type_invariant(&*self);
        }
        let ghost before = self.pending();
        let mut run = ScanRun { files: Vec::new(), next: 0, successful: 0, failed: 0 };
        std::mem::swap(self, &mut run);
        let ScanRun { files, next, successful, failed } = run;
        assert(next < files.len());
        *self =
        if success {
            ScanRun { files, next: next + 1, successful: successful + 1, failed }
        } else {
            ScanRun { files, next: next + 1, successful, failed: failed + 1 }
        };
        assert(self.pending() =~= before.skip(1));
    }
}

impl MediaScanner {
    /// Claims the scan. Says no, and changes nothing, where one is already under way.
    pub fn begin_scan(&mut self) -> (res: bool)
        ensures
            res == !old(self).scanning,
            final(self).scanning,
            final(self).index == old(self).index,
            index::sound(final(self).index@),
            final(self).tmdb_client == old(self).tmdb_client,
            final(self).config == old(self).config,
    {
        proof {
            use_type_invariant(&self.index);
        }
        if self.scanning {
            return false;
        }
        self.scanning = true;
        true
    }

    /// Gives the scan up again, however it went.
    pub fn end_scan(&mut self)
        ensures
            !final(self).scanning,
            final(self).index == old(self).index,
            index::sound(final(self).index@),
            final(self).tmdb_client == old(self).tmdb_client,
            final(self).config == old(self).config,
    {
        proof {
            use_type_invariant(&self.index);
        }
        self.scanning = false;
    }

    /// Starts filing the videos among the entries of a directory.
    pub fn add_directory(&self, entries: &Vec<DirEntry>) -> (res: ScanRun)
        ensures
            res.pending() == scanner::video_files(entries@),
            forall|i: int|
                0 <= i < entries@.len() ==> scanner::judged_by_ascii_case(
                    (#[trigger] entries@[i]).path@,
                ),
            res.successes() == 0,
            res.failures() == 0,
            index::sound(self.index@),
    {
        proof {
            use_type_invariant(&self.index);
        }
        let files = self.scan_directory(entries);
        let run = ScanRun { files, next: 0, successful: 0, failed: 0 };
        assert(run.pending() =~= scanner::video_files(entries@));
        run
    }

    /// Clears the index, to be filled with the videos among the entries of the media directory.
    pub fn do_scan(&mut self, entries: &Vec<DirEntry>) -> (res: ScanRun)
        ensures
            res.pending() == scanner::video_files(entries@),
            forall|i: int|
                0 <= i < entries@.len() ==> scanner::judged_by_ascii_case(
                    (#[trigger] entries@[i]).path@,
                ),
            res.successes() == 0,
            res.failures() == 0,
            final(self).index@ == IndexView::empty(),
            index::sound(final(self).index@),
            final(self).same_but_index(*old(self)),
    {
        let run = self.add_directory(entries);
        self.index.clear();
        run
    }

    /// Deals with the next video of a pass, given its plan and what the movie database
    /// answered about it.
    pub fn scan_step(
        &mut self,
        run: &mut ScanRun,
        plan: Option<IndexPlan>,
        metadata: Option<Metadata>,
    )
        requires
            old(run).pending().len() > 0,
        ensures
            ({
                let step = Step {
                    path: old(run).pending()[0],
                    plan: naming::opt_plan(plan),
                    answer: scanner::opt_metadata(metadata),
                };
                &&& final(self).index@ == after_step(old(self).index@, step)
                &&& plan is None || metadata is None ==> final(self).index@ == old(self).index@
                &&& plan is Some && metadata is Some ==> final(self).index@ == scanner::with_video(
                    old(self).index@,
                    old(run).pending()[0],
                    plan->0@,
                    metadata->0@,
                )
                &&& plan is Some && metadata is Some ==> final(run).successes() == old(
                    run,
                ).successes() + 1 && final(run).failures() == old(run).failures()
                &&& plan is None || metadata is None ==> final(run).successes() == old(
                    run,
                ).successes() && final(run).failures() == old(run).failures() + 1
                &&& final(run).pending() == old(run).pending().skip(1)
                &&& final(run).successes() == old(run).successes() + if filed(step) {
                    1int
                } else {
                    0int
                }
                &&& final(run).failures() == old(run).failures() + if filed(step) {
                    0int
                } else {
                    1int
                }
            }),
            index::sound(final(self).index@),
            final(self).same_but_index(*old(self)),
    {
        proof {
            use_type_invariant(&self.index);
        }
        let success = match (plan, run.next_file()) {
            (Some(plan), Some(path)) => self.index_file(path, plan, metadata),
            _ => false,
        };
        run.record(success);
    }
}

/// A step without a plan or without an answer changes nothing; any other files its video.
pub proof fn law_step(index: IndexView, step: Step)
    ensures
        filed(step) <==> step.plan is Some && step.answer is Some,
        step.plan is None || step.answer is None ==> after_step(index, step) == index,
        step.plan is Some && step.answer is Some ==> after_step(index, step)
            == scanner::with_video(index, step.path, step.plan->0, step.answer->0),
{
}

/// Steps are taken one after the other: first all of the first part, then all of the second.
pub proof fn law_steps_follow_each_other(index: IndexView, a: Seq<Step>, b: Seq<Step>)
    ensures
        filled(index, a + b) == filled(filled(index, a), b),
        filled(index, Seq::empty()) == index,
        rebuilt(a) == filled(IndexView::empty(), a),
    decreases b.len(),
{
    if b.len() == 0 {
        assert(a + b =~= a);
    } else {
        law_steps_follow_each_other(index, a, b.drop_last());
        assert((a + b).drop_last() =~= a + b.drop_last());
    }
}

/// Filing videos keeps an index sound.
pub proof fn law_filling_keeps_sound(index: IndexView, steps: Seq<Step>)
    requires
        index::sound(index),
    ensures
        index::sound(filled(index, steps)),
    decreases steps.len(),
{
    if steps.len() > 0 {
        let before = filled(index, steps.drop_last());
        let step = steps.last();
        law_filling_keeps_sound(index, steps.drop_last());
        if filed(step) {
            scanner::law_filed_video_is_served(
                before,
                step.path,
                step.plan->0,
                step.answer->0,
                step.answer->0.imdb_id,
                step_file(step),
            );
        }
    }
}

/// Whether one of the steps filed this file under this identifier.
pub open spec fn was_filed(steps: Seq<Step>, id: Seq<char>, file: types::FileView) -> bool {
    exists|i: int|
        0 <= i < steps.len() && filed(#[trigger] steps[i]) && steps[i].answer->0.imdb_id == id
            && step_file(steps[i]) == file
}

/// Filing videos adds nothing but those videos, each as it was filed.
pub proof fn law_filling_adds_only_what_was_filed(
    index: IndexView,
    steps: Seq<Step>,
    id: Seq<char>,
    file: types::FileView,
)
    requires
        index::sound(index),
        index::serves(filled(index, steps), id, file),
    ensures
        index::serves(index, id, file) || was_filed(steps, id, file),
    decreases steps.len(),
{
    if steps.len() > 0 {
        let earlier = steps.drop_last();
        let before = filled(index, earlier);
        let step = steps.last();
        law_filling_keeps_sound(index, earlier);
        if filed(step) {
            scanner::law_filed_video_is_served(
                before,
                step.path,
                step.plan->0,
                step.answer->0,
                id,
                file,
            );
        }
        if filed(step) && id == step.answer->0.imdb_id && file == step_file(step) {
            assert(steps[steps.len() - 1] == step);
        } else {
            law_filling_adds_only_what_was_filed(index, earlier, id, file);
            if was_filed(earlier, id, file) {
                let i = choose|i: int|
                    0 <= i < earlier.len() && filed(#[trigger] earlier[i])
                        && earlier[i].answer->0.imdb_id == id && step_file(earlier[i]) == file;
                assert(steps[i] == earlier[i]);
            }
        }
    }
}

/// After a scan nothing is served but the videos that were found, each as it was filed.
pub proof fn law_scan_serves_only_what_was_filed(
    steps: Seq<Step>,
    id: Seq<char>,
    file: types::FileView,
)
    requires
        index::serves(rebuilt(steps), id, file),
    ensures
        was_filed(steps, id, file),
{
    law_filling_adds_only_what_was_filed(IndexView::empty(), steps, id, file);
}

/// Whether one filed video takes the place of an earlier one: both go under the same
/// identifier, and they are not different episodes.
pub open spec fn displaces(later: Step, earlier: Step) -> bool {
    &&& later.answer->0.imdb_id == earlier.answer->0.imdb_id
    &&& !(later.plan->0.is_series && earlier.plan->0.is_series && !index::same_place(
        step_file(later),
        step_file(earlier),
    ))
}

/// Every filed video is served, unless one that came later took its place.
pub proof fn law_filling_serves_what_was_filed(index: IndexView, steps: Seq<Step>, i: int)
    requires
        index::sound(index),
        0 <= i < steps.len(),
        filed(steps[i]),
        forall|j: int|
            i < j < steps.len() && filed(#[trigger] steps[j]) ==> !displaces(steps[j], steps[i]),
    ensures
        index::serves(filled(index, steps), steps[i].answer->0.imdb_id, step_file(steps[i])),
        scanner::is_series(filled(index, steps), steps[i].answer->0.imdb_id)
            == steps[i].plan->0.is_series,
    decreases steps.len(),
{
    let earlier = steps.drop_last();
    let before = filled(index, earlier);
    let step = steps.last();
    let id = steps[i].answer->0.imdb_id;
    let file = step_file(steps[i]);
    law_filling_keeps_sound(index, earlier);
    if filed(step) {
        scanner::law_filed_video_is_served(
            before,
            step.path,
            step.plan->0,
            step.answer->0,
            id,
            file,
        );
    }
    if i < steps.len() - 1 {
        assert(earlier[i] == steps[i]);
        assert forall|j: int| i < j < earlier.len() && filed(#[trigger] earlier[j]) implies !displaces(
            earlier[j],
            earlier[i],
        ) by {
            assert(steps[j] == earlier[j]);
        }
        law_filling_serves_what_was_filed(index, earlier, i);
        if filed(step) {
            assert(filed(steps[steps.len() - 1]));
        }
    }
}

/// What is served stays served while videos are filed under other identifiers.
pub proof fn law_filling_keeps_other_titles(
    index: IndexView,
    steps: Seq<Step>,
    id: Seq<char>,
    file: types::FileView,
)
    requires
        index::sound(index),
        index::serves(index, id, file),
        forall|i: int|
            0 <= i < steps.len() && filed(#[trigger] steps[i]) ==> steps[i].answer->0.imdb_id != id,
    ensures
        index::serves(filled(index, steps), id, file),
    decreases steps.len(),
{
    if steps.len() > 0 {
        let earlier = steps.drop_last();
        let step = steps.last();
        assert forall|i: int| 0 <= i < earlier.len() && filed(#[trigger] earlier[i]) implies earlier[i].answer->0.imdb_id
            != id by {
            assert(steps[i] == earlier[i]);
        }
        law_filling_keeps_sound(index, earlier);
        law_filling_keeps_other_titles(index, earlier, id, file);
        if filed(step) {
            assert(steps[steps.len() - 1] == step);
            scanner::law_filed_video_is_served(
                filled(index, earlier),
                step.path,
                step.plan->0,
                step.answer->0,
                id,
                file,
            );
        }
    }
}

} // verus!
