//! The bookkeeping of mail synchronisation: the status shown to the user,
//! the switch of the background loop, the batches fetched for one account,
//! and what happens to each fetched email.
use vstd::prelude::*;
use crate::classifier::{auto_classify_email, labels_for, system_tag_map};
use crate::error::{AppError, AppResult, error_message};
use crate::models::{Account, Email, SyncResult, Tag};
use crate::notify::{
    count_new_emails, new_email_body, new_email_text, sync_done_body, sync_done_text,
    sync_error_body, sync_error_text, total_new_emails, any_new_emails,
    lemma_total_positive_iff_any_new, NEW_EMAIL_TITLE, SYNC_DONE_TITLE, SYNC_FAILED_TITLE,
};

verus! {

broadcast use vstd::string::group_string_axioms;

/// Seconds between two scheduled synchronisations.
pub const SYNC_INTERVAL_SECS: u64 = 300;

/// Emails fetched per batch by the background synchronisation.
pub const BATCH_SIZE: u32 = 200;

/// Accounts synchronised at the same time.
pub const MAX_CONCURRENT_SYNCS: usize = 2;

/// Emails fetched by a synchronisation started by hand or from the tray.
pub const MANUAL_FETCH_LIMIT: u32 = 50;

/// Text of the error for a synchronisation requested while one runs.
pub const SYNC_IN_PROGRESS: &'static str = "Sync already in progress";

/// A copy of a list of results.
pub fn copy_results(results: &Vec<SyncResult>) -> (r: Vec<SyncResult>)
    ensures
        r@ == results@,
{
    let mut r: Vec<SyncResult> = Vec::new();
    let mut i: usize = 0;
    while i < results.len()
        invariant
            i <= results.len(),
            r@ == results@.take(i as int),
        decreases results.len() - i,
    {
        r.push(results[i].clone());
        i = i + 1;
        assert(r@ =~= results@.take(i as int));
    }
    assert(results@.take(results.len() as int) =~= results@);
    r
}

/// The state of synchronisation as the user sees it.
#[derive(Debug)]
pub enum SyncStatus {
    Idle,
    Syncing { account_id: Option<i64> },
    Completed { results: Vec<SyncResult> },
    Error { message: String },
}

/// Two statuses that read the same: same variant, same account, same
/// results, same message.
pub open spec fn same_status(a: SyncStatus, b: SyncStatus) -> bool {
    match (a, b) {
        (SyncStatus::Idle, SyncStatus::Idle) => true,
        (SyncStatus::Syncing { account_id: x }, SyncStatus::Syncing { account_id: y }) => x == y,
        (SyncStatus::Completed { results: x }, SyncStatus::Completed { results: y }) => x@ == y@,
        (SyncStatus::Error { message: x }, SyncStatus::Error { message: y }) => x@ == y@,
        _ => false,
    }
}

impl Clone for SyncStatus {
    fn clone(&self) -> (r: Self)
        ensures
            same_status(r, *self),
    {
        match self {
            SyncStatus::Idle => SyncStatus::Idle,
            SyncStatus::Syncing { account_id } => SyncStatus::Syncing { account_id: *account_id },
            SyncStatus::Completed { results } => SyncStatus::Completed {
                results: copy_results(results),
            },
            SyncStatus::Error { message } => SyncStatus::Error { message: message.clone() },
        }
    }
}

/// A notification to show on the desktop.
#[derive(Clone, Debug)]
pub struct Notice {
    pub title: String,
    pub body: String,
}

/// The status after a synchronisation ended with `outcome`.
pub open spec fn finished_status(status: SyncStatus, outcome: AppResult<Vec<SyncResult>>) -> bool {
    match outcome {
        Ok(results) => status matches SyncStatus::Completed { results: r } && r@ == results@,
        Err(e) => status matches SyncStatus::Error { message } && message@ == error_message(e),
    }
}

/// The status and the background switch of the synchronisation.
pub struct SyncControl {
    pub status: SyncStatus,
    pub running: bool,
}

impl SyncControl {
    /// Idle, with the background loop off.
    pub fn new() -> (c: Self)
        ensures
            c.status is Idle,
            !c.running,
    {
        SyncControl { status: SyncStatus::Idle, running: false }
    }

    /// Switches the background loop on. True when it was off, so that a
    /// loop is to be started; false, with nothing changed, when it was on.
    pub fn start_background(&mut self) -> (start: bool)
        ensures
            start == !old(self).running,
            final(self).running,
            final(self).status == old(self).status,
    {
        if self.running {
            return false;
        }
        self.running = true;
        true
    }

    /// Switches the background loop off and resets the status to idle.
    pub fn stop_background(&mut self)
        ensures
            !final(self).running,
            final(self).status is Idle,
    {
        self.running = false;
        self.status = SyncStatus::Idle;
    }

    /// The current status.
    pub fn get_status(&self) -> (s: SyncStatus)
        ensures
            same_status(s, self.status),
    {
        self.status.clone()
    }

    /// A tick of the background loop. While the loop is switched on, a
    /// scheduled synchronisation of every account begins and the tick
    /// returns true; once it is switched off, the tick returns false, the
    /// loop ends, and nothing changes.
    pub fn begin_tick(&mut self) -> (go: bool)
        ensures
            go == old(self).running,
            final(self).running == old(self).running,
            go ==> final(self).status == (SyncStatus::Syncing { account_id: None })
                && final(self).running,
            !go ==> *final(self) == *old(self),
    {
        if !self.running {
            return false;
        }
        self.status = SyncStatus::Syncing { account_id: None };
        true
    }

    /// A synchronisation asked for by the user begins, unless one is
    /// already running: then it is refused and nothing changes.
    pub fn begin_manual(&mut self, account_id: Option<i64>) -> (r: AppResult<()>)
        ensures
            old(self).status is Syncing ==> (r matches Err(AppError::InvalidInput(m)) && m@
                == SYNC_IN_PROGRESS@) && final(self).status == old(self).status,
            !(old(self).status is Syncing) ==> r is Ok && final(self).status == (
            SyncStatus::Syncing { account_id }),
            final(self).running == old(self).running,
    {
        if let SyncStatus::Syncing { .. } = self.status {
            return Err(AppError::InvalidInput(String::from_str(SYNC_IN_PROGRESS)));
        }
        self.status = SyncStatus::Syncing { account_id };
        Ok(())
    }

    /// A synchronisation asked for by the user ended with `outcome`.
    pub fn finish_manual(&mut self, outcome: &AppResult<Vec<SyncResult>>)
        ensures
            finished_status(final(self).status, *outcome),
            final(self).running == old(self).running,
    {
        match outcome {
            Ok(results) => {
                self.status = SyncStatus::Completed { results: copy_results(results) };
            },
            Err(e) => {
                self.status = SyncStatus::Error { message: e.message() };
            },
        }
    }

    /// A scheduled synchronisation ended with `outcome`. Gives the
    /// notification to show: the new-mail summary when some account brought
    /// new mail, the error when it failed, none otherwise.
    pub fn finish_scheduled(&mut self, outcome: AppResult<Vec<SyncResult>>) -> (notice: Option<Notice>)
        requires
            outcome matches Ok(results) ==> total_new_emails(results@) <= usize::MAX,
        ensures
            finished_status(final(self).status, outcome),
            final(self).running == old(self).running,
            match outcome {
                Ok(results) => if any_new_emails(results@) {
                    notice matches Some(n) && n.title@ == SYNC_DONE_TITLE@ && Some(n.body@)
                        == sync_done_text(total_new_emails(results@), results@)
                } else {
                    notice is None
                },
                Err(e) => notice matches Some(n) && n.title@ == SYNC_FAILED_TITLE@ && n.body@
                    == sync_error_text(error_message(e)),
            },
    {
        match outcome {
            Ok(results) => {
                let total_new = count_new_emails(results.as_slice());
                proof {
                    lemma_total_positive_iff_any_new(results@);
                }
                let notice = if total_new > 0 {
                    match sync_done_body(total_new, results.as_slice()) {
                        Some(body) => Some(Notice { title: String::from_str(SYNC_DONE_TITLE), body }),
                        None => None,
                    }
                } else {
                    None
                };
                self.status = SyncStatus::Completed { results };
                notice
            },
            Err(e) => {
                let message = e.message();
                let body = sync_error_body(message.as_str());
                self.status = SyncStatus::Error { message };
                Some(Notice { title: String::from_str(SYNC_FAILED_TITLE), body })
            },
        }
    }
}

/// Once a synchronisation has finished, whatever its outcome, the status
/// no longer reads as syncing, so the next request is accepted.
pub proof fn lemma_finished_accepts_next(status: SyncStatus, outcome: AppResult<Vec<SyncResult>>)
    requires
        finished_status(status, outcome),
    ensures
        !(status is Syncing),
{
}

/// An operation on the synchronisation control, as the background loop
/// and the user issue them.
pub enum ControlOp {
    /// `start_background`.
    Start,
    /// `stop_background`.
    Stop,
    /// `begin_tick`, at each interval of the background loop.
    Tick,
    /// `begin_manual`, `finish_manual` or `finish_scheduled`.
    Other,
}

/// Whether the background loop is switched on after an operation:
/// `start_background` leaves it on, `stop_background` off, and every other
/// operation as it was.
pub open spec fn switched_on(running: bool, op: ControlOp) -> bool {
    match op {
        ControlOp::Start => true,
        ControlOp::Stop => false,
        _ => running,
    }
}

/// Whether the background loop is switched on after a sequence of operations.
pub open spec fn switched_on_after(running: bool, ops: Seq<ControlOp>) -> bool
    decreases ops.len(),
{
    if ops.len() == 0 {
        running
    } else {
        switched_on(switched_on_after(running, ops.drop_last()), ops.last())
    }
}

/// The `i`-th operation is a start that `start_background` grants, so that
/// a new background loop is spawned.
pub open spec fn start_granted(running: bool, ops: Seq<ControlOp>, i: int) -> bool {
    &&& 0 <= i < ops.len()
    &&& ops[i] is Start
    &&& !switched_on_after(running, ops.take(i))
}

/// The `j`-th operation is a tick on which `begin_tick` returns true, so
/// that a scheduled synchronisation begins.
pub open spec fn tick_runs(running: bool, ops: Seq<ControlOp>, j: int) -> bool {
    &&& 0 <= j < ops.len()
    &&& ops[j] is Tick
    &&& switched_on_after(running, ops.take(j))
}

/// Without a stop in between, the loop stays switched on after a start.
proof fn lemma_on_until_stop(running: bool, ops: Seq<ControlOp>, i: int, m: int)
    requires
        0 <= i < m <= ops.len(),
        ops[i] is Start,
        forall|k: int| i < k < m ==> !(#[trigger] ops[k] is Stop),
    ensures
        switched_on_after(running, ops.take(m)),
    decreases m - i,
{
    assert(ops.take(m).drop_last() =~= ops.take(m - 1));
    if m - 1 > i {
        lemma_on_until_stop(running, ops, i, m - 1);
    }
}

/// Without a start in between, the loop stays switched off after a stop.
proof fn lemma_off_until_start(running: bool, ops: Seq<ControlOp>, i: int, m: int)
    requires
        0 <= i < m <= ops.len(),
        ops[i] is Stop,
        forall|k: int| i < k < m ==> !(#[trigger] ops[k] is Start),
    ensures
        !switched_on_after(running, ops.take(m)),
    decreases m - i,
{
    assert(ops.take(m).drop_last() =~= ops.take(m - 1));
    if m - 1 > i {
        lemma_off_until_start(running, ops, i, m - 1);
    }
}

/// At most one background loop at a time: between two starts that spawn a
/// loop, the loop was stopped.
pub proof fn lemma_one_background_loop(running: bool, ops: Seq<ControlOp>, i: int, j: int)
    requires
        i < j,
        start_granted(running, ops, i),
        start_granted(running, ops, j),
    ensures
        exists|k: int| i < k < j && #[trigger] ops[k] is Stop,
{
    if !exists|k: int| i < k < j && #[trigger] ops[k] is Stop {
        lemma_on_until_stop(running, ops, i, j);
    }
}

/// The background loop ends at its first tick after a stop: no tick after
/// a stop begins a synchronisation unless a start came in between, and
/// every tick after a granted start, with no stop in between, begins one.
pub proof fn lemma_loop_runs_until_stopped(running: bool, ops: Seq<ControlOp>, i: int, j: int)
    requires
        0 <= i < j < ops.len(),
        ops[j] is Tick,
    ensures
        ops[i] is Stop && (forall|k: int| i < k < j ==> !(#[trigger] ops[k] is Start))
            ==> !tick_runs(running, ops, j),
        ops[i] is Start && (forall|k: int| i < k < j ==> !(#[trigger] ops[k] is Stop))
            ==> tick_runs(running, ops, j),
{
    if ops[i] is Stop && (forall|k: int| i < k < j ==> !(#[trigger] ops[k] is Start)) {
        lemma_off_until_start(running, ops, i, j);
    }
    if ops[i] is Start && (forall|k: int| i < k < j ==> !(#[trigger] ops[k] is Stop)) {
        lemma_on_until_stop(running, ops, i, j);
    }
}

/// Progress of the synchronisation of one account: what it counted so far
/// and the highest stored UID seen at the start of the last batch.
pub struct AccountSync {
    pub account_id: i64,
    pub account_name: String,
    pub new_emails: usize,
    pub updated_emails: usize,
    pub last_uid: Option<u32>,
}

impl AccountSync {
    /// Nothing counted yet for `account`.
    pub fn new(account: &Account) -> (s: Self)
        ensures
            s.account_id == account.id,
            s.account_name@ == account.name@,
            s.new_emails == 0,
            s.updated_emails == 0,
            s.last_uid is None,
    {
        AccountSync {
            account_id: account.id,
            account_name: account.name.clone(),
            new_emails: 0,
            updated_emails: 0,
            last_uid: None,
        }
    }

    /// Decides on the next batch, given the highest UID now stored for the
    /// account. `None` stops: the stored maximum did not move since the last
    /// batch. Otherwise the batch fetches the messages after that UID.
    pub fn next_batch(&mut self, current_max_uid: Option<u32>) -> (since: Option<Option<u32>>)
        ensures
            (old(self).last_uid == current_max_uid && old(self).last_uid is Some) ==> since is None
                && *final(self) == *old(self),
            !(old(self).last_uid == current_max_uid && old(self).last_uid is Some) ==> since
                == Some(current_max_uid) && final(self).last_uid == current_max_uid
                && final(self).new_emails == old(self).new_emails && final(self).updated_emails
                == old(self).updated_emails && final(self).account_id == old(self).account_id
                && final(self).account_name == old(self).account_name,
    {
        if self.last_uid == current_max_uid && self.last_uid.is_some() {
            return None;
        }
        self.last_uid = current_max_uid;
        Some(current_max_uid)
    }

    /// Counts one stored email, as new or as already known.
    pub fn record_email(&mut self, is_new: bool)
        requires
            is_new ==> old(self).new_emails < usize::MAX,
            !is_new ==> old(self).updated_emails < usize::MAX,
        ensures
            is_new ==> final(self).new_emails == old(self).new_emails + 1
                && final(self).updated_emails == old(self).updated_emails,
            !is_new ==> final(self).updated_emails == old(self).updated_emails + 1
                && final(self).new_emails == old(self).new_emails,
            final(self).new_emails + final(self).updated_emails == old(self).new_emails + old(
                self,
            ).updated_emails + 1,
            final(self).last_uid == old(self).last_uid,
            final(self).account_id == old(self).account_id,
            final(self).account_name == old(self).account_name,
    {
        if is_new {
            self.new_emails = self.new_emails + 1;
        } else {
            self.updated_emails = self.updated_emails + 1;
        }
    }

    /// What the synchronisation of this account brought in.
    pub fn result(&self) -> (r: SyncResult)
        ensures
            r.account_id == self.account_id,
            r.account_name@ == self.account_name@,
            r.new_emails == self.new_emails,
            r.updated_emails == self.updated_emails,
    {
        SyncResult {
            account_id: self.account_id,
            account_name: self.account_name.clone(),
            new_emails: self.new_emails,
            updated_emails: self.updated_emails,
        }
    }
}

/// Whether another batch may follow one that brought `fetched` emails: only
/// a full batch leaves some behind.
pub fn more_batches_after(fetched: usize) -> (more: bool)
    ensures
        more == (fetched >= BATCH_SIZE),
{
    fetched >= BATCH_SIZE as usize
}

/// What follows the storing of a newly arrived email: the tags it gets and,
/// when it is unread, the notification.
pub struct NewEmailPlan {
    pub tag_ids: Vec<i64>,
    pub notice: Option<Notice>,
}

/// What to do with a newly stored email, given the tags that exist.
pub fn plan_new_email(email: &Email, tags: &[Tag]) -> (p: NewEmailPlan)
    ensures
        p.tag_ids@ == labels_for(system_tag_map(tags@), *email),
        email.is_read ==> p.notice is None,
        !email.is_read ==> (p.notice matches Some(n) && n.title@ == NEW_EMAIL_TITLE@ && n.body@
            == new_email_text(email.subject@, email.sender_name@)),
{
    let tag_ids = auto_classify_email(email, tags);
    let notice = if !email.is_read {
        Some(
            Notice {
                title: String::from_str(NEW_EMAIL_TITLE),
                body: new_email_body(email.subject.as_str(), email.sender_name.as_str()),
            },
        )
    } else {
        None
    };
    NewEmailPlan { tag_ids, notice }
}

/// The results of the accounts whose synchronisation succeeded, in order.
pub open spec fn successful_results(outcomes: Seq<AppResult<SyncResult>>) -> Seq<SyncResult>
    decreases outcomes.len(),
{
    if outcomes.len() == 0 {
        Seq::empty()
    } else {
        let rest = successful_results(outcomes.drop_last());
        match outcomes.last() {
            Ok(r) => rest.push(r),
            Err(_) => rest,
        }
    }
}

/// Every successful outcome contributes its result, once and in order,
/// whatever its counts, and failed ones contribute nothing: the results are
/// exactly those of the `Ok` outcomes, at the strictly increasing
/// positions `idx`.
pub proof fn lemma_successful_results_exact(outcomes: Seq<AppResult<SyncResult>>) -> (idx: Seq<int>)
    ensures
        idx.len() == successful_results(outcomes).len(),
        forall|k: int, l: int| 0 <= k < l < idx.len() ==> idx[k] < idx[l],
        forall|k: int|
            0 <= k < idx.len() ==> 0 <= #[trigger] idx[k] < outcomes.len() && outcomes[idx[k]]
                == Ok::<SyncResult, AppError>(successful_results(outcomes)[k]),
        forall|i: int|
            0 <= i < outcomes.len() && (#[trigger] outcomes[i]) is Ok ==> exists|k: int|
                0 <= k < idx.len() && idx[k] == i,
    decreases outcomes.len(),
{
    if outcomes.len() == 0 {
        Seq::empty()
    } else {
        let init = outcomes.drop_last();
        let prev = lemma_successful_results_exact(init);
        let n = outcomes.len() - 1;
        assert forall|i: int| 0 <= i < n implies outcomes[i] == #[trigger] init[i] by {}
        if outcomes.last() is Ok {
            let idx = prev.push(n);
            assert forall|i: int|
                0 <= i < outcomes.len() && (#[trigger] outcomes[i]) is Ok implies exists|k: int|
                0 <= k < idx.len() && idx[k] == i by {
                if i == n {
                    assert(idx[prev.len() as int] == i);
                } else {
                    assert(init[i] is Ok);
                    let k = choose|k: int| 0 <= k < prev.len() && prev[k] == i;
                    assert(idx[k] == i);
                }
            }
            assert forall|k: int| 0 <= k < idx.len() implies 0 <= #[trigger] idx[k] < outcomes.len()
                && outcomes[idx[k]] == Ok::<SyncResult, AppError>(successful_results(outcomes)[k]) by {
                if k < prev.len() {
                    assert(init[prev[k]] == outcomes[prev[k]]);
                }
            }
            idx
        } else {
            assert forall|i: int|
                0 <= i < outcomes.len() && (#[trigger] outcomes[i]) is Ok implies exists|k: int|
                0 <= k < prev.len() && prev[k] == i by {
                assert(init[i] is Ok);
            }
            assert forall|k: int| 0 <= k < prev.len() implies 0 <= #[trigger] prev[k] < outcomes.len()
                && outcomes[prev[k]] == Ok::<SyncResult, AppError>(successful_results(outcomes)[k]) by {
                assert(init[prev[k]] == outcomes[prev[k]]);
            }
            prev
        }
    }
}

/// Keeps the results of the accounts whose synchronisation succeeded; the
/// failures are dropped.
pub fn collect_results(outcomes: Vec<AppResult<SyncResult>>) -> (r: Vec<SyncResult>)
    ensures
        r@ == successful_results(outcomes@),
{
    let mut r: Vec<SyncResult> = Vec::new();
    let mut i: usize = 0;
    while i < outcomes.len()
        invariant
            i <= outcomes.len(),
            r@ == successful_results(outcomes@.take(i as int)),
        decreases outcomes.len() - i,
    {
        assert(outcomes@.take(i + 1).drop_last() =~= outcomes@.take(i as int));
        match &outcomes[i] {
            Ok(res) => r.push(res.clone()),
            Err(_) => {},
        }
        i = i + 1;
    }
    assert(outcomes@.take(outcomes.len() as int) =~= outcomes@);
    r
}

} // verus!
