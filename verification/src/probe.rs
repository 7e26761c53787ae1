//! The storage probe as a state machine.
//!
//! A run creates a bucket, asks where it lies, uploads its payloads side by
//! side, and then cleans up: it deletes every object whose key was recorded,
//! in order, and after all of them the bucket. The caller performs each
//! action against the backend and hands back what happened; the machine
//! decides what comes next. Once the uploads were started the clean-up runs
//! whatever they came to, and it runs once.

use crate::plan::{
    bytes_per_second, deep_archive_available, deep_archive_in, keys_of, plan_wf,
    planned_keys_are_distinct, throughput, total_bytes, total_bytes_of, UploadTask,
};
use crate::text::views;
use crate::text::{chars_of, contains_exactly, find};
use vstd::prelude::*;
use vstd::string::StringExecFns;

verus! {

/// The part of a run in which the backend failed.
#[derive(Clone, Copy, Debug, PartialEq, Eq, Structural)]
pub enum Stage {
    Create,
    Upload,
    Delete,
    Join,
}

/// A failure of the backend, with the backend's own words.
#[derive(Debug, PartialEq, Eq)]
pub enum ProbeError {
    /// The backend refused access.
    AccessDenied(String),
    /// Any other failure, by the stage in which it came.
    Storage(Stage, String),
}

/// What a [`ProbeError`] holds, as mathematical values.
pub enum ProbeErrorView {
    AccessDenied(Seq<char>),
    Storage(Stage, Seq<char>),
}

impl View for ProbeError {
    type V = ProbeErrorView;

    open spec fn view(&self) -> ProbeErrorView {
        match self {
            ProbeError::AccessDenied(text) => ProbeErrorView::AccessDenied(text@),
            ProbeError::Storage(stage, text) => ProbeErrorView::Storage(*stage, text@),
        }
    }
}

/// The view of an error that there may be.
pub open spec fn error_view(error: Option<ProbeError>) -> Option<ProbeErrorView> {
    match error {
        Some(e) => Some(e@),
        None => None,
    }
}

/// The error that the backend's words `text` stand for in `stage`: a refusal
/// of access where they hold `AccessDenied`, else a failure of that stage.
pub open spec fn error_of(stage: Stage, text: Seq<char>) -> ProbeErrorView {
    if contains_exactly(text, "AccessDenied"@) {
        ProbeErrorView::AccessDenied(text)
    } else {
        ProbeErrorView::Storage(stage, text)
    }
}

/// Computes [`error_of`].
pub fn classify_error(stage: Stage, text: String) -> (error: ProbeError)
    ensures
        error@ == error_of(stage, text@),
{
    if find(&chars_of(text.as_str()), &chars_of("AccessDenied")) {
        ProbeError::AccessDenied(text)
    } else {
        ProbeError::Storage(stage, text)
    }
}

/// How one upload ended.
#[derive(Debug, PartialEq, Eq)]
pub enum UploadOutcome {
    /// The object was stored; holds the nanoseconds that the upload took.
    Stored(u64),
    /// The backend refused the object.
    Failed(String),
    /// The upload task could not be joined.
    JoinFailed(String),
}

/// What an [`UploadOutcome`] holds, as mathematical values.
pub enum UploadOutcomeView {
    Stored(u64),
    Failed(Seq<char>),
    JoinFailed(Seq<char>),
}

impl View for UploadOutcome {
    type V = UploadOutcomeView;

    open spec fn view(&self) -> UploadOutcomeView {
        match self {
            UploadOutcome::Stored(nanos) => UploadOutcomeView::Stored(*nanos),
            UploadOutcome::Failed(text) => UploadOutcomeView::Failed(text@),
            UploadOutcome::JoinFailed(text) => UploadOutcomeView::JoinFailed(text@),
        }
    }
}

/// The view of each outcome of `v`.
pub open spec fn outcome_views(v: Seq<UploadOutcome>) -> Seq<UploadOutcomeView> {
    Seq::new(v.len(), |i: int| v[i]@)
}

/// The error of one outcome, if it is a failure.
pub open spec fn failure_of(outcome: UploadOutcomeView) -> Option<ProbeErrorView> {
    match outcome {
        UploadOutcomeView::Stored(_) => None,
        UploadOutcomeView::Failed(text) => Some(error_of(Stage::Upload, text)),
        UploadOutcomeView::JoinFailed(text) => Some(error_of(Stage::Join, text)),
    }
}

/// The error of the first failure among `outcomes`, if there is one.
pub open spec fn first_failure(outcomes: Seq<UploadOutcomeView>) -> Option<ProbeErrorView>
    decreases outcomes.len(),
{
    if outcomes.len() == 0 {
        None
    } else {
        match first_failure(outcomes.drop_last()) {
            Some(e) => Some(e),
            None => failure_of(outcomes.last()),
        }
    }
}

/// A failure among the first outcomes is the first failure of them all.
pub proof fn lemma_first_failure_stays(outcomes: Seq<UploadOutcomeView>, k: int)
    requires
        0 <= k <= outcomes.len(),
        first_failure(outcomes.take(k)) is Some,
    ensures
        first_failure(outcomes) == first_failure(outcomes.take(k)),
    decreases outcomes.len() - k,
{
    if k == outcomes.len() {
        assert(outcomes.take(k) =~= outcomes);
    } else {
        assert(outcomes.drop_last().take(k) =~= outcomes.take(k));
        lemma_first_failure_stays(outcomes.drop_last(), k);
    }
}

/// Computes [`first_failure`].
pub fn find_first_failure(outcomes: &Vec<UploadOutcome>) -> (error: Option<ProbeError>)
    ensures
        error_view(error) == first_failure(outcome_views(outcomes@)),
{
    let ghost all = outcome_views(outcomes@);
    let mut i: usize = 0;
    proof {
        assert(all.take(0) =~= Seq::empty());
    }
    while i < outcomes.len()
        invariant
            i <= outcomes.len(),
            all == outcome_views(outcomes@),
            first_failure(all.take(i as int)) is None,
        decreases outcomes.len() - i,
    {
        proof {
            assert(all.take(i + 1).drop_last() =~= all.take(i as int));
            assert(all.take(i + 1).last() == outcomes@[i as int]@);
        }
        let found = match &outcomes[i] {
            UploadOutcome::Stored(_) => None,
            UploadOutcome::Failed(text) => Some(classify_error(Stage::Upload, text.clone())),
            UploadOutcome::JoinFailed(text) => Some(classify_error(Stage::Join, text.clone())),
        };
        if found.is_some() {
            proof {
                assert(first_failure(all.take(i + 1)) == error_view(found));
                lemma_first_failure_stays(all, i + 1);
            }
            return found;
        }
        i += 1;
    }
    proof {
        assert(all.take(i as int) =~= all);
    }
    None
}

/// Where a run stands.
#[derive(Clone, Copy, Debug, PartialEq, Eq, Structural)]
pub enum Phase {
    CreatingBucket,
    Locating,
    Uploading,
    DeletingObjects,
    DeletingBucket,
    Done,
}

/// What the caller has to do next.
#[derive(Clone, Copy, Debug, PartialEq, Eq, Structural)]
pub enum Action {
    CreateBucket,
    QueryLocation,
    /// Start every upload, join them all, and report how each ended.
    Upload,
    /// Delete the object whose key was recorded at this place.
    DeleteObject(usize),
    DeleteBucket,
    /// The run is over.
    Finish,
}

/// What happened when the caller did what it was asked to do.
#[derive(Debug, PartialEq, Eq)]
pub enum Event {
    BucketCreated,
    /// The region of the bucket, where the backend names one.
    Located(Option<String>),
    /// How each upload ended, in the order of the plan.
    UploadsJoined(Vec<UploadOutcome>),
    ObjectDeleted,
    BucketDeleted,
    /// The backend failed; holds its words.
    Failed(String),
}

/// What an [`Event`] holds, as mathematical values.
pub enum EventView {
    BucketCreated,
    Located(Option<Seq<char>>),
    UploadsJoined(Seq<UploadOutcomeView>),
    ObjectDeleted,
    BucketDeleted,
    Failed(Seq<char>),
}

impl View for Event {
    type V = EventView;

    open spec fn view(&self) -> EventView {
        match self {
            Event::BucketCreated => EventView::BucketCreated,
            Event::Located(None) => EventView::Located(None),
            Event::Located(Some(region)) => EventView::Located(Some(region@)),
            Event::UploadsJoined(outcomes) => EventView::UploadsJoined(outcome_views(outcomes@)),
            Event::ObjectDeleted => EventView::ObjectDeleted,
            Event::BucketDeleted => EventView::BucketDeleted,
            Event::Failed(text) => EventView::Failed(text@),
        }
    }
}

/// The state of a run, as mathematical values.
pub struct ProbeView {
    pub phase: Phase,
    /// How many object keys were recorded.
    pub objects: usize,
    pub deep_archive_available: bool,
    /// For how many of the recorded keys, from the first on, a deletion was
    /// attempted.
    pub deletion_attempts: usize,
    /// How often the deletion of the bucket was attempted.
    pub bucket_deletion_attempts: usize,
    /// Why the bucket could not be set up.
    pub setup_error: Option<ProbeErrorView>,
    /// The first failure among the uploads.
    pub upload_error: Option<ProbeErrorView>,
    /// Why the clean-up stopped early.
    pub cleanup_error: Option<ProbeErrorView>,
}

/// The state in which a run over `objects` uploads starts.
pub open spec fn initial(objects: usize) -> ProbeView {
    ProbeView {
        phase: Phase::CreatingBucket,
        objects,
        deep_archive_available: false,
        deletion_attempts: 0,
        bucket_deletion_attempts: 0,
        setup_error: None,
        upload_error: None,
        cleanup_error: None,
    }
}

/// The backend's words that `event` brings. An event that answers another
/// action than the one asked for counts as a failure without such words.
pub open spec fn failure_text(event: EventView) -> Seq<char> {
    match event {
        EventView::Failed(text) => text,
        _ => "unexpected event"@,
    }
}

/// The first step of the clean-up: the first object, or the bucket where no
/// key was recorded.
pub open spec fn begin_cleanup(s: ProbeView) -> (ProbeView, Action) {
    if s.objects > 0 {
        (ProbeView { phase: Phase::DeletingObjects, deletion_attempts: 1, ..s }, Action::DeleteObject(0))
    } else {
        (
            ProbeView { phase: Phase::DeletingBucket, bucket_deletion_attempts: 1, ..s },
            Action::DeleteBucket,
        )
    }
}

/// The state after `event` and the action that it calls for.
pub open spec fn next(s: ProbeView, event: EventView) -> (ProbeView, Action) {
    match s.phase {
        Phase::CreatingBucket => match event {
            EventView::BucketCreated => (ProbeView { phase: Phase::Locating, ..s }, Action::QueryLocation),
            _ => (
                ProbeView {
                    phase: Phase::Done,
                    setup_error: Some(error_of(Stage::Create, failure_text(event))),
                    ..s
                },
                Action::Finish,
            ),
        },
        Phase::Locating => match event {
            EventView::Located(location) => (
                ProbeView {
                    phase: Phase::Uploading,
                    deep_archive_available: deep_archive_in(location),
                    ..s
                },
                Action::Upload,
            ),
            _ => (
                ProbeView {
                    phase: Phase::Done,
                    setup_error: Some(error_of(Stage::Create, failure_text(event))),
                    ..s
                },
                Action::Finish,
            ),
        },
        Phase::Uploading => begin_cleanup(
            ProbeView {
                upload_error: match event {
                    EventView::UploadsJoined(outcomes) => first_failure(outcomes),
                    _ => Some(error_of(Stage::Join, failure_text(event))),
                },
                ..s
            },
        ),
        Phase::DeletingObjects => match event {
            EventView::ObjectDeleted => if s.deletion_attempts < s.objects {
                (
                    ProbeView { deletion_attempts: (s.deletion_attempts + 1) as usize, ..s },
                    Action::DeleteObject(s.deletion_attempts),
                )
            } else {
                (
                    ProbeView {
                        phase: Phase::DeletingBucket,
                        bucket_deletion_attempts: (s.bucket_deletion_attempts + 1) as usize,
                        ..s
                    },
                    Action::DeleteBucket,
                )
            },
            _ => (
                ProbeView {
                    phase: Phase::Done,
                    cleanup_error: Some(error_of(Stage::Delete, failure_text(event))),
                    ..s
                },
                Action::Finish,
            ),
        },
        Phase::DeletingBucket => match event {
            EventView::BucketDeleted => (ProbeView { phase: Phase::Done, ..s }, Action::Finish),
            _ => (
                ProbeView {
                    phase: Phase::Done,
                    cleanup_error: Some(error_of(Stage::Delete, failure_text(event))),
                    ..s
                },
                Action::Finish,
            ),
        },
        Phase::Done => (s, Action::Finish),
    }
}

/// What holds of every state that a run can reach.
pub open spec fn wf(s: ProbeView) -> bool {
    &&& s.deletion_attempts <= s.objects
    &&& s.bucket_deletion_attempts <= 1
    &&& s.bucket_deletion_attempts == 1 ==> s.deletion_attempts == s.objects
    &&& match s.phase {
        Phase::CreatingBucket | Phase::Locating | Phase::Uploading => {
            &&& s.deletion_attempts == 0
            &&& s.bucket_deletion_attempts == 0
            &&& s.setup_error is None
            &&& s.upload_error is None
            &&& s.cleanup_error is None
        },
        Phase::DeletingObjects => {
            &&& s.deletion_attempts >= 1
            &&& s.bucket_deletion_attempts == 0
            &&& s.setup_error is None
            &&& s.cleanup_error is None
        },
        Phase::DeletingBucket => {
            &&& s.bucket_deletion_attempts == 1
            &&& s.setup_error is None
            &&& s.cleanup_error is None
        },
        Phase::Done => if s.setup_error is Some {
            &&& s.deletion_attempts == 0
            &&& s.bucket_deletion_attempts == 0
            &&& s.upload_error is None
            &&& s.cleanup_error is None
        } else if s.cleanup_error is Some {
            s.deletion_attempts >= 1 || s.bucket_deletion_attempts == 1
        } else {
            s.bucket_deletion_attempts == 1
        },
    }
}

/// A run of the probe. Its state can only be changed by [`Probe::step`], so
/// every run is in a state for which [`wf`] holds.
#[derive(Debug)]
pub struct Probe {
    phase: Phase,
    objects: usize,
    deep_archive_available: bool,
    deletion_attempts: usize,
    bucket_deletion_attempts: usize,
    setup_error: Option<ProbeError>,
    upload_error: Option<ProbeError>,
    cleanup_error: Option<ProbeError>,
}

impl View for Probe {
    type V = ProbeView;

    closed spec fn view(&self) -> ProbeView {
        ProbeView {
            phase: self.phase,
            objects: self.objects,
            deep_archive_available: self.deep_archive_available,
            deletion_attempts: self.deletion_attempts,
            bucket_deletion_attempts: self.bucket_deletion_attempts,
            setup_error: error_view(self.setup_error),
            upload_error: error_view(self.upload_error),
            cleanup_error: error_view(self.cleanup_error),
        }
    }
}

fn failure_words(event: Event) -> (text: String)
    ensures
        text@ == failure_text(event@),
{
    match event {
        Event::Failed(text) => text,
        _ => String::from_str("unexpected event"),
    }
}

impl Probe {
    #[verifier::type_invariant]
    spec fn valid(self) -> bool {
        wf(self@)
    }

    /// Starts a run that records `objects` object keys, and asks for the
    /// bucket to be created.
    pub fn new(objects: usize) -> (r: (Probe, Action))
        ensures
            r.0@ == initial(objects),
            r.1 == Action::CreateBucket,
            wf(r.0@),
    {
        (
            Probe {
                phase: Phase::CreatingBucket,
                objects,
                deep_archive_available: false,
                deletion_attempts: 0,
                bucket_deletion_attempts: 0,
                setup_error: None,
                upload_error: None,
                cleanup_error: None,
            },
            Action::CreateBucket,
        )
    }

    /// Starts a run at its clean-up, for a bucket in which `objects` object
    /// keys were recorded: asks for the first object to be deleted, or for
    /// the bucket where there is none.
    pub fn for_cleanup(objects: usize) -> (r: (Probe, Action))
        ensures
            r.0@ == begin_cleanup(ProbeView { phase: Phase::Uploading, ..initial(objects) }).0,
            r.1 == begin_cleanup(ProbeView { phase: Phase::Uploading, ..initial(objects) }).1,
            wf(r.0@),
    {
        if objects > 0 {
            (
                Probe {
                    phase: Phase::DeletingObjects,
                    objects,
                    deep_archive_available: false,
                    deletion_attempts: 1,
                    bucket_deletion_attempts: 0,
                    setup_error: None,
                    upload_error: None,
                    cleanup_error: None,
                },
                Action::DeleteObject(0),
            )
        } else {
            (
                Probe {
                    phase: Phase::DeletingBucket,
                    objects,
                    deep_archive_available: false,
                    deletion_attempts: 0,
                    bucket_deletion_attempts: 1,
                    setup_error: None,
                    upload_error: None,
                    cleanup_error: None,
                },
                Action::DeleteBucket,
            )
        }
    }

    /// Takes in what happened and says what to do next: see [`next`].
    pub fn step(self, event: Event) -> (r: (Probe, Action))
        ensures
            wf(self@),
            r.0@ == next(self@, event@).0,
            r.1 == next(self@, event@).1,
            wf(r.0@),
    {
        proof {
            use_type_invariant(&self);
        }
        match self.phase {
            Phase::CreatingBucket => match event {
                Event::BucketCreated => (
                    Probe { phase: Phase::Locating, ..self },
                    Action::QueryLocation,
                ),
                other => (self.fail_setup(other), Action::Finish),
            },
            Phase::Locating => match event {
                Event::Located(location) => {
                    let available = match &location {
                        Some(region) => deep_archive_available(Some(region.as_str())),
                        None => deep_archive_available(None),
                    };
                    (
                        Probe {
                            phase: Phase::Uploading,
                            deep_archive_available: available,
                            ..self
                        },
                        Action::Upload,
                    )
                },
                other => (self.fail_setup(other), Action::Finish),
            },
            Phase::Uploading => {
                let failure = match event {
                    Event::UploadsJoined(outcomes) => find_first_failure(&outcomes),
                    other => Some(classify_error(Stage::Join, failure_words(other))),
                };
                if self.objects > 0 {
                    (
                        Probe {
                            phase: Phase::DeletingObjects,
                            deletion_attempts: 1,
                            upload_error: failure,
                            ..self
                        },
                        Action::DeleteObject(0),
                    )
                } else {
                    (
                        Probe {
                            phase: Phase::DeletingBucket,
                            bucket_deletion_attempts: 1,
                            upload_error: failure,
                            ..self
                        },
                        Action::DeleteBucket,
                    )
                }
            },
            Phase::DeletingObjects => match event {
                Event::ObjectDeleted => if self.deletion_attempts < self.objects {
                    let place = self.deletion_attempts;
                    (Probe { deletion_attempts: place + 1, ..self }, Action::DeleteObject(place))
                } else {
                    (
                        Probe {
                            phase: Phase::DeletingBucket,
                            bucket_deletion_attempts: self.bucket_deletion_attempts + 1,
                            ..self
                        },
                        Action::DeleteBucket,
                    )
                },
                other => (self.fail_cleanup(other), Action::Finish),
            },
            Phase::DeletingBucket => match event {
                Event::BucketDeleted => (Probe { phase: Phase::Done, ..self }, Action::Finish),
                other => (self.fail_cleanup(other), Action::Finish),
            },
            Phase::Done => (self, Action::Finish),
        }
    }

    fn fail_setup(self, event: Event) -> (r: Probe)
        requires
            self@.phase == Phase::CreatingBucket || self@.phase == Phase::Locating,
        ensures
            r@ == (ProbeView {
                phase: Phase::Done,
                setup_error: Some(error_of(Stage::Create, failure_text(event@))),
                ..self@
            }),
    {
        proof {
            use_type_invariant(&self);
        }
        Probe {
            phase: Phase::Done,
            setup_error: Some(classify_error(Stage::Create, failure_words(event))),
            ..self
        }
    }

    fn fail_cleanup(self, event: Event) -> (r: Probe)
        requires
            self@.phase == Phase::DeletingObjects || self@.phase == Phase::DeletingBucket,
        ensures
            r@ == (ProbeView {
                phase: Phase::Done,
                cleanup_error: Some(error_of(Stage::Delete, failure_text(event@))),
                ..self@
            }),
    {
        proof {
            use_type_invariant(&self);
        }
        Probe {
            phase: Phase::Done,
            cleanup_error: Some(classify_error(Stage::Delete, failure_words(event))),
            ..self
        }
    }

    /// Where the run stands.
    pub fn phase(&self) -> (phase: Phase)
        ensures
            phase == self@.phase,
    {
        self.phase
    }

    /// How many object keys the run records.
    pub fn objects(&self) -> (n: usize)
        ensures
            n == self@.objects,
    {
        self.objects
    }

    /// Whether the coldest storage tier can be had where the bucket lies;
    /// known once the uploads have started.
    pub fn deep_archive_available(&self) -> (available: bool)
        ensures
            available == self@.deep_archive_available,
    {
        self.deep_archive_available
    }

    /// For how many of the recorded keys a deletion was attempted.
    pub fn deletion_attempts(&self) -> (n: usize)
        ensures
            n == self@.deletion_attempts,
            n <= self@.objects,
    {
        proof {
            use_type_invariant(self);
        }
        self.deletion_attempts
    }

    /// How often the deletion of the bucket was attempted.
    pub fn bucket_deletion_attempts(&self) -> (n: usize)
        ensures
            n == self@.bucket_deletion_attempts,
            n <= 1,
    {
        proof {
            use_type_invariant(self);
        }
        self.bucket_deletion_attempts
    }

    /// Why the bucket could not be set up, if it could not.
    pub fn setup_error(&self) -> (error: &Option<ProbeError>)
        ensures
            error_view(*error) == self@.setup_error,
    {
        &self.setup_error
    }

    /// The first failure among the uploads, if there was one.
    pub fn upload_error(&self) -> (error: &Option<ProbeError>)
        ensures
            error_view(*error) == self@.upload_error,
    {
        &self.upload_error
    }

    /// Why the clean-up stopped early, if it did.
    pub fn cleanup_error(&self) -> (error: &Option<ProbeError>)
        ensures
            error_view(*error) == self@.cleanup_error,
    {
        &self.cleanup_error
    }

    /// Whether the run is over and nothing failed.
    pub fn succeeded(&self) -> (ok: bool)
        ensures
            ok == succeeded(self@),
    {
        matches!(self.phase, Phase::Done) && self.setup_error.is_none()
            && self.upload_error.is_none() && self.cleanup_error.is_none()
    }
}

/// Whether the run is over and nothing failed.
pub open spec fn succeeded(s: ProbeView) -> bool {
    s.phase == Phase::Done && s.setup_error is None && s.upload_error is None
        && s.cleanup_error is None
}

/// The state after the events `events`, taken in one after the other.
pub open spec fn run(s: ProbeView, events: Seq<EventView>) -> ProbeView
    decreases events.len(),
{
    if events.len() == 0 {
        s
    } else {
        next(run(s, events.drop_last()), events.last()).0
    }
}

/// The keys for which a deletion was attempted, where `keys` are the keys
/// that the run recorded.
pub open spec fn deletion_attempt_list(s: ProbeView, keys: Seq<Seq<char>>) -> Seq<Seq<char>> {
    keys.take(s.deletion_attempts as int)
}

/// Whether `key` stands at one place of `list` and at no other.
pub open spec fn occurs_once(list: Seq<Seq<char>>, key: Seq<char>) -> bool {
    exists|j: int|
        0 <= j < list.len() && #[trigger] list[j] == key && forall|k: int|
            0 <= k < list.len() && #[trigger] list[k] == key ==> k == j
}

/// The place of a phase in the order of a run.
pub open spec fn rank(phase: Phase) -> int {
    match phase {
        Phase::CreatingBucket => 0,
        Phase::Locating => 1,
        Phase::Uploading => 2,
        Phase::DeletingObjects => 3,
        Phase::DeletingBucket => 4,
        Phase::Done => 5,
    }
}

/// A step leads from a state that a run can reach to another such state.
pub proof fn step_keeps_wf(s: ProbeView, event: EventView)
    requires
        wf(s),
    ensures
        wf(next(s, event).0),
{
}

/// Whatever the backend answers, a run is always in a state for which
/// [`wf`] holds.
pub proof fn every_run_is_wf(objects: usize, events: Seq<EventView>)
    ensures
        wf(run(initial(objects), events)),
    decreases events.len(),
{
    if events.len() > 0 {
        every_run_is_wf(objects, events.drop_last());
        step_keeps_wf(run(initial(objects), events.drop_last()), events.last());
    }
}

/// The objects are deleted in the order in which their keys were recorded,
/// one attempt for each key.
pub proof fn objects_are_deleted_in_order(s: ProbeView, event: EventView)
    requires
        wf(s),
    ensures
        next(s, event).1 matches Action::DeleteObject(k) ==> k == s.deletion_attempts && k
            < s.objects && next(s, event).0.deletion_attempts == k + 1,
        !(next(s, event).1 is DeleteObject) ==> next(s, event).0.deletion_attempts
            == s.deletion_attempts,
{
}

/// The deletion of the bucket is attempted only when the deletion of every
/// object has been attempted and none of them failed, and it is attempted
/// at most once.
pub proof fn bucket_is_deleted_after_all_objects(s: ProbeView, event: EventView)
    requires
        wf(s),
    ensures
        next(s, event).1 == Action::DeleteBucket ==> {
            &&& s.deletion_attempts == s.objects
            &&& s.bucket_deletion_attempts == 0
            &&& next(s, event).0.bucket_deletion_attempts == 1
            &&& s.phase == Phase::DeletingObjects ==> event == EventView::ObjectDeleted
        },
        next(s, event).1 != Action::DeleteBucket ==> next(s, event).0.bucket_deletion_attempts
            == s.bucket_deletion_attempts,
{
}

/// Once the uploads are under way the clean-up starts with the next event,
/// whatever it is, a failed upload included; and it cannot start a second
/// time, because no step leads back to an earlier phase.
pub proof fn cleanup_follows_the_uploads(s: ProbeView, event: EventView)
    requires
        wf(s),
    ensures
        s.phase == Phase::Uploading ==> next(s, event).0.phase == Phase::DeletingObjects || next(
            s,
            event,
        ).0.phase == Phase::DeletingBucket,
        rank(next(s, event).0.phase) >= rank(s.phase),
        rank(next(s, event).0.phase) == rank(s.phase) ==> s.phase == Phase::DeletingObjects
            || s.phase == Phase::Done,
{
}

/// A run that ends without a failure has attempted to delete what stands
/// at every place of the recorded keys, in order, and then the bucket, once.
/// Where no key was recorded twice, each key stands in the list of attempts
/// exactly once.
pub proof fn successful_run_deletes_everything_once(
    objects: usize,
    events: Seq<EventView>,
    keys: Seq<Seq<char>>,
)
    requires
        keys.len() == objects,
        succeeded(run(initial(objects), events)),
    ensures
        deletion_attempt_list(run(initial(objects), events), keys) == keys,
        keys.no_duplicates() ==> forall|i: int|
            0 <= i < keys.len() ==> occurs_once(
                deletion_attempt_list(run(initial(objects), events), keys),
                #[trigger] keys[i],
            ),
        run(initial(objects), events).bucket_deletion_attempts == 1,
{
    let end = run(initial(objects), events);
    every_run_is_wf(objects, events);
    assert(run(initial(objects), Seq::<EventView>::empty()) == initial(objects));
    lemma_objects_stay(initial(objects), events);
    assert(end.objects == objects);
    let list = deletion_attempt_list(end, keys);
    assert(list =~= keys);
    if keys.no_duplicates() {
        assert forall|i: int| 0 <= i < keys.len() implies occurs_once(list, #[trigger] keys[i]) by {
            assert(list[i] == keys[i]);
        }
    }
}

/// A run over the uploads of a plan that ends without a failure has
/// attempted to delete every key of the plan exactly once, in the order of
/// the plan, and then the bucket, once.
pub proof fn planned_run_deletes_each_key_once(tasks: Seq<UploadTask>, events: Seq<EventView>)
    requires
        plan_wf(tasks),
        tasks.len() <= usize::MAX,
        succeeded(run(initial(tasks.len() as usize), events)),
    ensures
        deletion_attempt_list(run(initial(tasks.len() as usize), events), keys_of(tasks))
            == keys_of(tasks),
        keys_of(tasks).no_duplicates(),
        forall|i: int|
            0 <= i < tasks.len() ==> occurs_once(
                deletion_attempt_list(run(initial(tasks.len() as usize), events), keys_of(tasks)),
                #[trigger] keys_of(tasks)[i],
            ),
        run(initial(tasks.len() as usize), events).bucket_deletion_attempts == 1,
{
    planned_keys_are_distinct(tasks);
    successful_run_deletes_everything_once(tasks.len() as usize, events, keys_of(tasks));
}

/// No step changes how many keys a run records.
pub proof fn lemma_objects_stay(s: ProbeView, events: Seq<EventView>)
    ensures
        run(s, events).objects == s.objects,
    decreases events.len(),
{
    if events.len() > 0 {
        lemma_objects_stay(s, events.drop_last());
    }
}

/// What a run has measured.
#[derive(Debug, PartialEq, Eq)]
pub struct ProbeReport {
    /// The keys of the objects, in the order of the uploads.
    pub object_keys: Vec<String>,
    /// The sum of the payload sizes.
    pub total_bytes: u128,
    /// How long the uploads took together, in nanoseconds.
    pub elapsed_nanos: u64,
    /// For each object, in the same order, the bytes per second at which it
    /// went out, where it was stored and the rate can be told.
    pub throughput: Vec<Option<u64>>,
}

/// The rate of the upload at place `i`.
pub open spec fn rate_at(tasks: Seq<UploadTask>, outcomes: Seq<UploadOutcomeView>, i: int) -> Option<
    u64,
> {
    if 0 <= i < outcomes.len() {
        match outcomes[i] {
            UploadOutcomeView::Stored(nanos) => bytes_per_second(tasks[i].size_bytes, nanos),
            _ => None,
        }
    } else {
        None
    }
}

/// Puts together what a run has measured: the keys and the total size of
/// `tasks`, the time that passed, and the rate of each upload that
/// `outcomes` reports as stored.
pub fn build_report(tasks: &Vec<UploadTask>, outcomes: &Vec<UploadOutcome>, elapsed_nanos: u64) -> (report:
    ProbeReport)
    ensures
        views(report.object_keys@) == keys_of(tasks@),
        report.total_bytes == total_bytes_of(tasks@),
        report.elapsed_nanos == elapsed_nanos,
        report.throughput@.len() == tasks@.len(),
        forall|i: int|
            0 <= i < tasks@.len() ==> #[trigger] report.throughput@[i] == rate_at(
                tasks@,
                outcome_views(outcomes@),
                i,
            ),
{
    let mut object_keys: Vec<String> = Vec::new();
    let mut rates: Vec<Option<u64>> = Vec::new();
    let mut i: usize = 0;
    while i < tasks.len()
        invariant
            i <= tasks.len(),
            object_keys@.len() == i,
            rates@.len() == i,
            forall|k: int| 0 <= k < i ==> (#[trigger] object_keys@[k])@ == tasks@[k].object_key@,
            forall|k: int|
                0 <= k < i ==> #[trigger] rates@[k] == rate_at(tasks@, outcome_views(outcomes@), k),
        decreases tasks.len() - i,
    {
        object_keys.push(tasks[i].object_key.clone());
        let rate = if i < outcomes.len() {
            assert(outcome_views(outcomes@)[i as int] == outcomes@[i as int]@);
            match &outcomes[i] {
                UploadOutcome::Stored(nanos) => throughput(tasks[i].size_bytes, *nanos),
                _ => None,
            }
        } else {
            None
        };
        rates.push(rate);
        i += 1;
    }
    proof {
        assert(views(object_keys@) =~= keys_of(tasks@));
    }
    ProbeReport { object_keys, total_bytes: total_bytes(tasks), elapsed_nanos, throughput: rates }
}

} // verus!
