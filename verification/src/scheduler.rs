//! The download orchestrator.
//!
//! A run takes the collected posts, gives each one an item task,
//! bounds how many tasks work at once with a permit pool, and
//! aggregates each task's single outcome into running totals.  The
//! spawning, waiting and I/O happen in the driving process; every
//! decision — when an item may start, what each step's result
//! means, which counter an outcome bumps, when the run is over —
//! is a verified function here, so the driver only ferries events
//! in and actions out.

use vstd::prelude::*;

use crate::api::Post;
use crate::download::DownloadError;
use crate::tool::{
    normalize_tags, path_join, spec_decimal, spec_normalize_tags, spec_path_join,
    spec_with_extension, str_eq, u64_to_string, with_extension,
};

verus! {

/// The outcome of one item task that did not fail.
#[derive(Debug, PartialEq, Eq, Structural)]
pub enum SingleDownloadResult {
    /// The file was downloaded and its sidecar written.
    Done,
    /// The file already existed with the right content.
    Existed,
}

/// The running totals of a run, one bump per finished item.
pub struct DownloadStatus {
    /// Items downloaded in this run.
    pub done: u64,
    /// Items already present with matching content.
    pub existed: u64,
    /// Items that failed at some step.
    pub failed: u64,
}

impl DownloadStatus {
    /// How many items have been accounted for.
    pub open spec fn processed(&self) -> int {
        self.done + self.existed + self.failed
    }

    /// The totals as the progress line shows them.
    pub fn message(&self) -> (m: String)
        ensures
            m@ == "[done:"@ + spec_decimal(self.done as int) + "\texisted:"@ + spec_decimal(
                self.existed as int,
            ) + "\tfailed:"@ + spec_decimal(self.failed as int) + "]"@,
    {
        let done = u64_to_string(self.done);
        let existed = u64_to_string(self.existed);
        let failed = u64_to_string(self.failed);
        let m = String::from_str("[done:").concat(done.as_str()).concat("\texisted:").concat(
            existed.as_str(),
        ).concat("\tfailed:").concat(failed.as_str()).concat("]");
        proof {
            assert(m@ =~= "[done:"@ + spec_decimal(self.done as int) + "\texisted:"@
                + spec_decimal(self.existed as int) + "\tfailed:"@ + spec_decimal(
                self.failed as int,
            ) + "]"@);
        }
        m
    }
}

/// A file-system error as the existing-file check distinguishes
/// them: a missing file is expected, anything else is reported.
#[derive(Debug, PartialEq, Eq)]
pub enum FsError {
    /// The file does not exist.
    NotFound,
    /// Any other I/O error, with its description.
    Other(String),
}

/// Decide whether a file counts as already downloaded, from the
/// result of hashing its content.  A missing file is a valid
/// "absent" answer, never an error; a present file counts exactly
/// when its digest equals the expected hash; any other I/O error
/// propagates.
pub fn check_file_existed(hash_result: Result<String, FsError>, hashed_value: &str) -> (r: Result<
    bool,
    FsError,
>)
    ensures
        hash_result matches Ok(h) ==> (r matches Ok(b) && b == (h@ == hashed_value@)),
        hash_result == Err::<String, FsError>(FsError::NotFound) ==> r == Ok::<bool, FsError>(
            false,
        ),
        (match hash_result {
            Result::Err(e) => e is Other ==> r == Err::<bool, FsError>(e),
            Result::Ok(_) => true,
        }),
{
    match hash_result {
        Ok(h) => Ok(str_eq(h.as_str(), hashed_value)),
        Err(FsError::NotFound) => Ok(false),
        Err(e) => Err(e),
    }
}

/// Where an item task stands.
#[derive(Debug, PartialEq, Eq, Structural)]
pub enum ItemPhase {
    /// Waiting for a permit.
    Queued,
    /// Permit held; the existing-file check is running.
    Checking,
    /// Permit held; the transfer is running.
    Transferring,
    /// Permit held; the tag sidecar is being written.
    WritingTags,
    /// Permit released; the one outcome has been delivered.
    Finished,
}

/// What happened to an item task, reported by the driver.
pub enum ItemEvent {
    /// A permit was granted.
    PermitAcquired,
    /// The existing-file check ended: present-and-matching, or an
    /// error.
    Checked(Result<bool, FsError>),
    /// The transfer ended with the written length, or an error.
    Transferred(Result<u64, DownloadError>),
    /// Writing the tag sidecar ended.
    TagsWritten(Result<(), String>),
}

/// What the driver must do next for an item task.
pub enum ItemAction {
    /// Hash the destination file and compare with the expected
    /// hash.
    CheckFile,
    /// Download the file.
    Transfer,
    /// Write the tag sidecar.
    WriteTags,
    /// The item is done: release its permit and deliver this one
    /// outcome to the aggregator.
    Complete(Result<SingleDownloadResult, String>),
}

/// Which phase an event belongs to.
pub open spec fn event_fits(phase: ItemPhase, event: ItemEvent) -> bool {
    match (phase, event) {
        (ItemPhase::Queued, ItemEvent::PermitAcquired) => true,
        (ItemPhase::Checking, ItemEvent::Checked(_)) => true,
        (ItemPhase::Transferring, ItemEvent::Transferred(_)) => true,
        (ItemPhase::WritingTags, ItemEvent::TagsWritten(_)) => true,
        _ => false,
    }
}

/// The item task's transition table.
pub open spec fn spec_next_phase(phase: ItemPhase, event: ItemEvent) -> ItemPhase {
    match (phase, event) {
        (ItemPhase::Queued, ItemEvent::PermitAcquired) => ItemPhase::Checking,
        (ItemPhase::Checking, ItemEvent::Checked(r)) => match r {
            Result::Ok(true) => ItemPhase::Finished,
            Result::Ok(false) => ItemPhase::Transferring,
            Result::Err(_) => ItemPhase::Finished,
        },
        (ItemPhase::Transferring, ItemEvent::Transferred(r)) => if r is Ok {
            ItemPhase::WritingTags
        } else {
            ItemPhase::Finished
        },
        (ItemPhase::WritingTags, ItemEvent::TagsWritten(_)) => ItemPhase::Finished,
        _ => phase,
    }
}

/// One item task: one post's unit of work, from permit to outcome.
pub struct ItemTask {
    /// Where the task stands.
    pub phase: ItemPhase,
    /// The destination path of the media file.
    pub filepath: String,
    /// The expected hex MD5 digest of the file.
    pub md5: String,
    /// The post's tags, space-separated.
    pub tags: String,
}

impl ItemTask {
    /// Feed one event to the task and learn what to do next.
    ///
    /// An item whose file is already present with matching content
    /// finishes as `Existed` and is never told to transfer: the
    /// action is `Transfer` exactly when the check answered
    /// "absent or different".  A failure at any step finishes the
    /// item with a message naming the file it concerned.
    pub fn step(&mut self, event: ItemEvent) -> (a: ItemAction)
        requires
            event_fits(old(self).phase, event),
        ensures
            final(self).filepath == old(self).filepath,
            final(self).md5 == old(self).md5,
            final(self).tags == old(self).tags,
            final(self).phase == spec_next_phase(old(self).phase, event),
            (a is Transfer) <==> (event matches ItemEvent::Checked(r) && r
                == Ok::<bool, FsError>(false)),
            (a is Complete) <==> (final(self).phase is Finished),
            old(self).phase is Queued ==> a is CheckFile,
            event matches ItemEvent::Checked(r) ==> (match r {
                Result::Ok(true) => a == ItemAction::Complete(
                    Ok::<SingleDownloadResult, String>(SingleDownloadResult::Existed),
                ),
                Result::Ok(false) => a is Transfer,
                Result::Err(_) => a matches ItemAction::Complete(out) && (out matches Err(m)
                    && m@ == "Failed to check if file is already existed: "@ + old(
                    self,
                ).filepath@),
            }),
            event matches ItemEvent::Transferred(r) ==> (match r {
                Result::Ok(_) => a is WriteTags,
                Result::Err(_) => a matches ItemAction::Complete(out) && (out matches Err(m)
                    && m@ == "Failed to download: "@ + old(self).filepath@),
            }),
            event matches ItemEvent::TagsWritten(r) ==> (match r {
                Result::Ok(_) => a == ItemAction::Complete(
                    Ok::<SingleDownloadResult, String>(SingleDownloadResult::Done),
                ),
                Result::Err(_) => a matches ItemAction::Complete(out) && (out matches Err(m)
                    && m@ == "Failed to write tags: "@ + spec_with_extension(
                    old(self).filepath@,
                    "txt"@,
                )),
            }),
    {
        match event {
            ItemEvent::PermitAcquired => {
                self.phase = ItemPhase::Checking;
                ItemAction::CheckFile
            },
            ItemEvent::Checked(r) => {
                match r {
                    Ok(true) => {
                        self.phase = ItemPhase::Finished;
                        ItemAction::Complete(Ok(SingleDownloadResult::Existed))
                    },
                    Ok(false) => {
                        self.phase = ItemPhase::Transferring;
                        ItemAction::Transfer
                    },
                    Err(_) => {
                        self.phase = ItemPhase::Finished;
                        let m = String::from_str(
                            "Failed to check if file is already existed: ",
                        ).concat(self.filepath.as_str());
                        ItemAction::Complete(Err(m))
                    },
                }
            },
            ItemEvent::Transferred(r) => {
                match r {
                    Ok(_) => {
                        self.phase = ItemPhase::WritingTags;
                        ItemAction::WriteTags
                    },
                    Err(_) => {
                        self.phase = ItemPhase::Finished;
                        let m = String::from_str("Failed to download: ").concat(
                            self.filepath.as_str(),
                        );
                        ItemAction::Complete(Err(m))
                    },
                }
            },
            ItemEvent::TagsWritten(r) => {
                self.phase = ItemPhase::Finished;
                match r {
                    Ok(_) => ItemAction::Complete(Ok(SingleDownloadResult::Done)),
                    Err(_) => {
                        let tag_path = with_extension(self.filepath.as_str(), "txt");
                        let m = String::from_str("Failed to write tags: ").concat(
                            tag_path.as_str(),
                        );
                        ItemAction::Complete(Err(m))
                    },
                }
            },
        }
    }

    /// The sidecar's path: the media file's path with a `txt`
    /// extension.
    pub fn tag_file_path(&self) -> (r: String)
        ensures
            r@ == spec_with_extension(self.filepath@, "txt"@),
    {
        with_extension(self.filepath.as_str(), "txt")
    }

    /// The sidecar's content: the tags with separators normalized.
    pub fn tag_content(&self) -> (r: String)
        ensures
            r@ == spec_normalize_tags(self.tags@),
    {
        normalize_tags(self.tags.as_str())
    }
}

/// Whether a task in this phase holds a permit.
pub open spec fn holds_permit(p: ItemPhase) -> bool {
    p is Checking || p is Transferring || p is WritingTags
}

/// How many tasks of `s` satisfy `f`.
pub open spec fn count_where(s: Seq<ItemTask>, f: spec_fn(ItemPhase) -> bool) -> int
    decreases s.len(),
{
    if s.len() == 0 {
        0
    } else {
        count_where(s.drop_last(), f) + (if f(s.last().phase) {
            1int
        } else {
            0int
        })
    }
}

/// How many tasks of `s` hold a permit.
pub open spec fn active_count(s: Seq<ItemTask>) -> int {
    count_where(s, |p: ItemPhase| holds_permit(p))
}

/// How many tasks of `s` have finished.
pub open spec fn finished_count(s: Seq<ItemTask>) -> int {
    count_where(s, |p: ItemPhase| p is Finished)
}

/// A count is between 0 and the number of tasks.
pub proof fn lemma_count_where_bounds(s: Seq<ItemTask>, f: spec_fn(ItemPhase) -> bool)
    ensures
        0 <= count_where(s, f) <= s.len(),
    decreases s.len(),
{
    if s.len() > 0 {
        lemma_count_where_bounds(s.drop_last(), f);
    }
}

/// A task that satisfies `f` keeps the count above zero.
pub proof fn lemma_count_where_present(s: Seq<ItemTask>, f: spec_fn(ItemPhase) -> bool, i: int)
    requires
        0 <= i < s.len(),
        f(s[i].phase),
    ensures
        count_where(s, f) >= 1,
    decreases s.len(),
{
    lemma_count_where_bounds(s.drop_last(), f);
    if i < s.len() - 1 {
        lemma_count_where_present(s.drop_last(), f, i);
    }
}

/// A task that does not satisfy `f` keeps the count below the
/// number of tasks.
pub proof fn lemma_count_where_missing(s: Seq<ItemTask>, f: spec_fn(ItemPhase) -> bool, i: int)
    requires
        0 <= i < s.len(),
        !f(s[i].phase),
    ensures
        count_where(s, f) < s.len(),
    decreases s.len(),
{
    lemma_count_where_bounds(s.drop_last(), f);
    if i < s.len() - 1 {
        lemma_count_where_missing(s.drop_last(), f, i);
    }
}

/// When every task satisfies `f`, the count is the number of
/// tasks.
pub proof fn lemma_count_where_full(s: Seq<ItemTask>, f: spec_fn(ItemPhase) -> bool)
    requires
        forall|i: int| 0 <= i < s.len() ==> f(s[i].phase),
    ensures
        count_where(s, f) == s.len(),
    decreases s.len(),
{
    if s.len() > 0 {
        assert(forall|i: int|
            0 <= i < s.drop_last().len() ==> f(s.drop_last()[i].phase)) by {
            assert(forall|i: int| 0 <= i < s.len() - 1 ==> s.drop_last()[i] == s[i]);
        }
        lemma_count_where_full(s.drop_last(), f);
    }
}

/// Replacing one task changes the count by that task's own
/// contribution.
pub proof fn lemma_count_where_update(
    s: Seq<ItemTask>,
    f: spec_fn(ItemPhase) -> bool,
    i: int,
    v: ItemTask,
)
    requires
        0 <= i < s.len(),
    ensures
        count_where(s.update(i, v), f) == count_where(s, f) - (if f(s[i].phase) {
            1int
        } else {
            0int
        }) + (if f(v.phase) {
            1int
        } else {
            0int
        }),
    decreases s.len(),
{
    if i == s.len() - 1 {
        assert(s.update(i, v).drop_last() =~= s.drop_last());
    } else {
        assert(s.update(i, v).drop_last() =~= s.drop_last().update(i, v));
        lemma_count_where_update(s.drop_last(), f, i, v);
    }
}

/// The permit pool: a fixed number of permits bounds how many item
/// tasks work at once.
pub struct Limiter {
    /// How many permits exist.
    pub capacity: usize,
    /// How many permits are currently held.
    pub in_use: usize,
}

impl Limiter {
    /// No more permits are held than exist, and at least one
    /// exists.
    pub open spec fn wf(&self) -> bool {
        self.in_use <= self.capacity && self.capacity >= 1
    }

    /// A pool of `capacity` permits, none held.
    pub fn new(capacity: usize) -> (l: Limiter)
        requires
            capacity >= 1,
        ensures
            l.wf(),
            l.capacity == capacity,
            l.in_use == 0,
    {
        Limiter { capacity, in_use: 0 }
    }

    /// Take a permit when one is free; the driver blocks the task
    /// until this succeeds.
    pub fn try_acquire(&mut self) -> (got: bool)
        requires
            old(self).wf(),
        ensures
            final(self).wf(),
            final(self).capacity == old(self).capacity,
            got <==> old(self).in_use < old(self).capacity,
            got ==> final(self).in_use == old(self).in_use + 1,
            !got ==> final(self).in_use == old(self).in_use,
    {
        if self.in_use < self.capacity {
            self.in_use = self.in_use + 1;
            true
        } else {
            false
        }
    }

    /// Give a permit back.
    pub fn release(&mut self)
        requires
            old(self).wf(),
            old(self).in_use >= 1,
        ensures
            final(self).wf(),
            final(self).capacity == old(self).capacity,
            final(self).in_use == old(self).in_use - 1,
    {
        self.in_use = self.in_use - 1;
    }
}

/// How one item task corresponds to one post.
pub open spec fn item_for_post(t: ItemTask, dir: Seq<char>, p: Post) -> bool {
    &&& t.filepath@ == spec_path_join(dir, p.filename@)
    &&& t.md5 == p.md5
    &&& t.tags == p.tags
}

/// The orchestrator of one run: the item tasks, the permit pool,
/// and the running totals.
pub struct Scheduler {
    /// Where the files go.
    pub download_dir: String,
    /// One task per post.
    pub items: Vec<ItemTask>,
    /// The permit pool bounding concurrent tasks.
    pub limiter: Limiter,
    /// The running totals.
    pub status: DownloadStatus,
}

impl Scheduler {
    /// The run's invariant: the permits held are exactly the tasks
    /// between permit grant and outcome, and the totals account
    /// for exactly the finished tasks.
    pub open spec fn wf(&self) -> bool {
        &&& self.limiter.wf()
        &&& self.limiter.in_use == active_count(self.items@)
        &&& self.status.processed() == finished_count(self.items@)
    }

    /// Arrange one run: one queued task per post, writing to the
    /// download directory, with a permit pool of `parallelism`
    /// permits (at least one).  The driver creates the directory
    /// itself before any task runs.
    pub fn build(download_dir: &str, api_post_data: Vec<Post>, parallelism: usize) -> (s:
        Scheduler)
        ensures
            s.wf(),
            s.download_dir@ == download_dir@,
            s.limiter.capacity == (if parallelism >= 1 {
                parallelism
            } else {
                1
            }),
            s.limiter.in_use == 0,
            s.status.done == 0 && s.status.existed == 0 && s.status.failed == 0,
            s.items@.len() == api_post_data@.len(),
            forall|i: int|
                0 <= i < api_post_data@.len() ==> (#[trigger] s.items@[i]).phase is Queued,
            forall|i: int|
                0 <= i < api_post_data@.len() ==> item_for_post(
                    #[trigger] s.items@[i],
                    download_dir@,
                    api_post_data@[i],
                ),
    {
        let capacity = if parallelism >= 1 {
            parallelism
        } else {
            1
        };
        let mut items: Vec<ItemTask> = Vec::new();
        let mut i: usize = 0;
        while i < api_post_data.len()
            invariant
                i <= api_post_data@.len(),
                items@.len() == i,
                forall|j: int| 0 <= j < i ==> (#[trigger] items@[j]).phase is Queued,
                forall|j: int|
                    0 <= j < i ==> item_for_post(
                        #[trigger] items@[j],
                        download_dir@,
                        api_post_data@[j],
                    ),
            decreases api_post_data@.len() - i,
        {
            let post = &api_post_data[i];
            let filepath = path_join(download_dir, post.filename.as_str());
            items.push(
                ItemTask {
                    phase: ItemPhase::Queued,
                    filepath,
                    md5: post.md5.clone(),
                    tags: post.tags.clone(),
                },
            );
            i = i + 1;
        }
        let s = Scheduler {
            download_dir: download_dir.to_owned(),
            items,
            limiter: Limiter::new(capacity),
            status: DownloadStatus { done: 0, existed: 0, failed: 0 },
        };
        proof {
            lemma_count_where_full(s.items@, |p: ItemPhase| !holds_permit(p));
            lemma_count_all_queued(s.items@);
        }
        s
    }

    /// Grant item `i` its permit, when one is free, and start its
    /// existing-file check.
    pub fn grant_permit(&mut self, i: usize) -> (a: ItemAction)
        requires
            old(self).wf(),
            i < old(self).items@.len(),
            old(self).items@[i as int].phase is Queued,
            old(self).limiter.in_use < old(self).limiter.capacity,
        ensures
            final(self).wf(),
            a is CheckFile,
            final(self).download_dir == old(self).download_dir,
            final(self).status == old(self).status,
            final(self).limiter.capacity == old(self).limiter.capacity,
            final(self).limiter.in_use == old(self).limiter.in_use + 1,
            final(self).items@.len() == old(self).items@.len(),
            forall|j: int|
                0 <= j < old(self).items@.len() && j != i ==> final(self).items@[j] == old(
                    self,
                ).items@[j],
            final(self).items@[i as int].phase is Checking,
            final(self).items@[i as int].filepath == old(self).items@[i as int].filepath,
            final(self).items@[i as int].md5 == old(self).items@[i as int].md5,
            final(self).items@[i as int].tags == old(self).items@[i as int].tags,
    {
        let got = self.limiter.try_acquire();
        let mut task = self.items.remove(i);
        let a = task.step(ItemEvent::PermitAcquired);
        self.items.insert(i, task);
        proof {
            assert(self.items@ =~= old(self).items@.update(i as int, self.items@[i as int]));
            lemma_count_where_update(
                old(self).items@,
                |p: ItemPhase| holds_permit(p),
                i as int,
                self.items@[i as int],
            );
            lemma_count_where_update(
                old(self).items@,
                |p: ItemPhase| p is Finished,
                i as int,
                self.items@[i as int],
            );
        }
        a
    }

    /// Deliver an event for item `i` — the result of its check,
    /// transfer or tag write — advance the task, and account for
    /// its outcome if this completed it: its permit comes back and
    /// exactly one counter is bumped, `failed` with a diagnostic
    /// naming the file when the item failed.
    pub fn deliver(&mut self, i: usize, event: ItemEvent) -> (a: ItemAction)
        requires
            old(self).wf(),
            i < old(self).items@.len(),
            holds_permit(old(self).items@[i as int].phase),
            event_fits(old(self).items@[i as int].phase, event),
        ensures
            final(self).wf(),
            final(self).download_dir == old(self).download_dir,
            final(self).limiter.capacity == old(self).limiter.capacity,
            final(self).items@.len() == old(self).items@.len(),
            forall|j: int|
                0 <= j < old(self).items@.len() && j != i ==> final(self).items@[j] == old(
                    self,
                ).items@[j],
            final(self).items@[i as int].phase == spec_next_phase(
                old(self).items@[i as int].phase,
                event,
            ),
            final(self).items@[i as int].filepath == old(self).items@[i as int].filepath,
            final(self).items@[i as int].md5 == old(self).items@[i as int].md5,
            final(self).items@[i as int].tags == old(self).items@[i as int].tags,
            (a is Complete) <==> (final(self).items@[i as int].phase is Finished),
            (a is Transfer) <==> (event matches ItemEvent::Checked(r) && r
                == Ok::<bool, FsError>(false)),
            event matches ItemEvent::Checked(r) ==> (match r {
                Result::Ok(true) => a == ItemAction::Complete(
                    Ok::<SingleDownloadResult, String>(SingleDownloadResult::Existed),
                ),
                Result::Ok(false) => a is Transfer,
                Result::Err(_) => a matches ItemAction::Complete(out) && out is Err,
            }),
            event matches ItemEvent::Transferred(r) ==> (match r {
                Result::Ok(_) => a is WriteTags,
                Result::Err(_) => a matches ItemAction::Complete(out) && out is Err,
            }),
            event matches ItemEvent::TagsWritten(r) ==> (match r {
                Result::Ok(_) => a == ItemAction::Complete(
                    Ok::<SingleDownloadResult, String>(SingleDownloadResult::Done),
                ),
                Result::Err(_) => a matches ItemAction::Complete(out) && out is Err,
            }),
            a is Complete ==> final(self).limiter.in_use == old(self).limiter.in_use - 1,
            !(a is Complete) ==> final(self).limiter.in_use == old(self).limiter.in_use,
            a == ItemAction::Complete(Ok::<SingleDownloadResult, String>(
                SingleDownloadResult::Done,
            )) ==> final(self).status == (DownloadStatus {
                done: (old(self).status.done + 1) as u64,
                ..old(self).status
            }),
            a == ItemAction::Complete(Ok::<SingleDownloadResult, String>(
                SingleDownloadResult::Existed,
            )) ==> final(self).status == (DownloadStatus {
                existed: (old(self).status.existed + 1) as u64,
                ..old(self).status
            }),
            (a matches ItemAction::Complete(out) && out is Err) ==> final(self).status
                == (DownloadStatus { failed: (old(self).status.failed + 1) as u64, ..old(
                self,
            ).status }),
            !(a is Complete) ==> final(self).status == old(self).status,
            (match a {
                ItemAction::Complete(out) => (match out {
                    Result::Err(m) => (match event {
                        ItemEvent::Checked(_) => m@
                            == "Failed to check if file is already existed: "@ + old(
                            self,
                        ).items@[i as int].filepath@,
                        ItemEvent::Transferred(_) => m@ == "Failed to download: "@ + old(
                            self,
                        ).items@[i as int].filepath@,
                        ItemEvent::TagsWritten(_) => m@ == "Failed to write tags: "@
                            + spec_with_extension(
                            old(self).items@[i as int].filepath@,
                            "txt"@,
                        ),
                        _ => true,
                    }),
                    Result::Ok(_) => true,
                }),
                _ => true,
            }),
    {
        let n_items = self.items.len();
        proof {
            lemma_count_where_missing(
                old(self).items@,
                |p: ItemPhase| p is Finished,
                i as int,
            );
            lemma_count_where_bounds(old(self).items@, |p: ItemPhase| p is Finished);
            lemma_count_where_present(
                old(self).items@,
                |p: ItemPhase| holds_permit(p),
                i as int,
            );
        }
        let mut task = self.items.remove(i);
        let a = task.step(event);
        self.items.insert(i, task);
        proof {
            assert(self.items@ =~= old(self).items@.update(i as int, self.items@[i as int]));
            lemma_count_where_update(
                old(self).items@,
                |p: ItemPhase| holds_permit(p),
                i as int,
                self.items@[i as int],
            );
            lemma_count_where_update(
                old(self).items@,
                |p: ItemPhase| p is Finished,
                i as int,
                self.items@[i as int],
            );
        }
        match &a {
            ItemAction::Complete(out) => {
                self.limiter.release();
                match out {
                    Ok(SingleDownloadResult::Done) => {
                        self.status.done = self.status.done + 1;
                    },
                    Ok(SingleDownloadResult::Existed) => {
                        self.status.existed = self.status.existed + 1;
                    },
                    Err(_) => {
                        self.status.failed = self.status.failed + 1;
                    },
                }
            },
            _ => (),
        }
        a
    }

    /// Whether every item task has delivered its one outcome — the
    /// run's termination condition.
    pub fn is_complete(&self) -> (r: bool)
        requires
            self.wf(),
        ensures
            r <==> finished_count(self.items@) == self.items@.len(),
    {
        let n_items = self.items.len();
        proof {
            lemma_count_where_bounds(self.items@, |p: ItemPhase| p is Finished);
        }
        let total: u64 = self.status.done + self.status.existed + self.status.failed;
        total == n_items as u64
    }
}

/// In a fresh arrangement no task holds a permit and none has
/// finished.
proof fn lemma_count_all_queued(s: Seq<ItemTask>)
    requires
        forall|i: int| 0 <= i < s.len() ==> s[i].phase is Queued,
    ensures
        active_count(s) == 0,
        finished_count(s) == 0,
    decreases s.len(),
{
    if s.len() > 0 {
        assert(forall|i: int| 0 <= i < s.len() - 1 ==> s.drop_last()[i] == s[i]);
        lemma_count_all_queued(s.drop_last());
    }
}

/// Law: the permit pool bounds concurrency.  In every reachable
/// state, the tasks holding a permit number at most the pool's
/// capacity, and at most the number of items — so never more than
/// the smaller of the two.
pub proof fn lemma_bounded_concurrency(s: Scheduler)
    requires
        s.wf(),
    ensures
        active_count(s.items@) <= s.limiter.capacity,
        active_count(s.items@) <= s.items@.len(),
{
    lemma_count_where_bounds(s.items@, |p: ItemPhase| holds_permit(p));
}

/// Law: a finished run accounts for every item exactly once.  When
/// every task has finished, the three counters sum to the number
/// of items, and all permits are back.
pub proof fn lemma_run_accounts_for_all(s: Scheduler)
    requires
        s.wf(),
        forall|i: int| 0 <= i < s.items@.len() ==> s.items@[i].phase is Finished,
    ensures
        s.status.done + s.status.existed + s.status.failed == s.items@.len(),
        s.limiter.in_use == 0,
{
    lemma_count_where_full(s.items@, |p: ItemPhase| p is Finished);
    lemma_count_none_active(s.items@);
}

/// No finished task holds a permit.
proof fn lemma_count_none_active(s: Seq<ItemTask>)
    requires
        forall|i: int| 0 <= i < s.len() ==> s[i].phase is Finished,
    ensures
        active_count(s) == 0,
    decreases s.len(),
{
    if s.len() > 0 {
        assert(forall|i: int| 0 <= i < s.len() - 1 ==> s.drop_last()[i] == s[i]);
        lemma_count_none_active(s.drop_last());
    }
}

} // verus!
