//! The job queue: one first-in, first-out lane for each priority.

use crossbeam_queue::SegQueue;
use vstd::prelude::*;

verus! {

/// The service class of a job. `Normal` is always served before `Low`.
#[derive(Debug, Clone, Copy, PartialEq, Eq, Structural, PartialOrd, Ord, Hash)]
pub enum Priority {
    Normal,
    Low,
}

impl Priority {
    /// The number of priority levels, which is the number of lanes of a queue.
    pub fn len() -> (n: usize)
        ensures
            n == 2,
    {
        2
    }
}

impl Default for Priority {
    /// A job whose priority is not given is served as `Normal`.
    fn default() -> (priority: Priority)
        ensures
            priority == Priority::Normal,
    {
        Priority::Normal
    }
}

/// `crossbeam_queue::SegQueue`, an unbounded queue. Of what it holds only
/// `lane_jobs` speaks.
#[verifier::external_type_specification]
#[verifier::external_body]
#[verifier::reject_recursive_types(T)]
pub struct ExSegQueue<T>(SegQueue<T>);

/// The jobs that wait in a lane, the oldest first.
pub uninterp spec fn lane_jobs(lane: SegQueue<String>) -> Seq<Seq<char>>;

/// `SegQueue::new` makes a queue that holds nothing.
#[verifier::external_body]
fn lane_new() -> (lane: SegQueue<String>)
    ensures
        lane_jobs(lane) == Seq::<Seq<char>>::empty(),
{
    SegQueue::new()
}

/// `SegQueue::push` puts the element behind all that the queue holds. The
/// exclusive borrow keeps every other handle away for the call.
#[verifier::external_body]
fn lane_push(lane: &mut SegQueue<String>, job: String)
    ensures
        lane_jobs(*final(lane)) == lane_jobs(*old(lane)).push(job@),
{
    lane.push(job)
}

/// `SegQueue::pop` takes the element at the head out of the queue and hands
/// it over; a queue that holds nothing stays as it is and gives `None`.
#[verifier::external_body]
fn lane_pop(lane: &mut SegQueue<String>) -> (job: Option<String>)
    ensures
        lane_jobs(*old(lane)).len() == 0 ==> job is None && lane_jobs(*final(lane)) == lane_jobs(
            *old(lane),
        ),
        lane_jobs(*old(lane)).len() > 0 ==> job is Some && job->0@ == lane_jobs(*old(lane))[0]
            && lane_jobs(*final(lane)) == lane_jobs(*old(lane)).drop_first(),
{
    lane.pop()
}

/// `SegQueue::is_empty` tells whether the queue holds nothing.
#[verifier::external_body]
fn lane_is_empty(lane: &SegQueue<String>) -> (empty: bool)
    ensures
        empty == (lane_jobs(*lane).len() == 0),
{
    lane.is_empty()
}

/// A queue of jobs with one lane for each priority.
///
/// A job is the text of a URL. Each lane hands its jobs out in the order in
/// which they came, and no job of the `Low` lane is handed out while the
/// `Normal` lane holds one.
#[derive(Debug)]
pub struct PriorityQueue {
    normal: SegQueue<String>,
    low: SegQueue<String>,
}

impl PriorityQueue {
    /// The jobs that wait in the lane of `priority`, the oldest first.
    pub closed spec fn lane(&self, priority: Priority) -> Seq<Seq<char>> {
        match priority {
            Priority::Normal => lane_jobs(self.normal),
            Priority::Low => lane_jobs(self.low),
        }
    }

    /// All waiting jobs in the order in which `pop` hands them out.
    pub open spec fn service_order(&self) -> Seq<Seq<char>> {
        self.lane(Priority::Normal) + self.lane(Priority::Low)
    }

    /// In the service order every job of the `Normal` lane stands before
    /// every job of the `Low` lane, and the jobs of each lane stand in the
    /// order of the lane.
    pub proof fn normal_is_served_before_low(&self, i: int, j: int)
        requires
            0 <= i < self.lane(Priority::Normal).len(),
            0 <= j < self.lane(Priority::Low).len(),
        ensures
            self.service_order()[i] == self.lane(Priority::Normal)[i],
            self.service_order()[self.lane(Priority::Normal).len() + j] == self.lane(
                Priority::Low,
            )[j],
            i < self.lane(Priority::Normal).len() + j,
    {
    }

    /// A queue in which no job waits.
    pub fn new() -> (queue: PriorityQueue)
        ensures
            queue.lane(Priority::Normal) == Seq::<Seq<char>>::empty(),
            queue.lane(Priority::Low) == Seq::<Seq<char>>::empty(),
    {
        PriorityQueue { normal: lane_new(), low: lane_new() }
    }

    /// Takes the oldest job out of the lane of `priority`, if it holds one.
    /// The other lane stays as it is.
    pub fn pop_priority(&mut self, priority: Priority) -> (job: Option<String>)
        ensures
            forall|other: Priority|
                other != priority ==> final(self).lane(other) == old(self).lane(other),
            old(self).lane(priority).len() == 0 ==> job is None && final(self).lane(priority)
                == old(self).lane(priority),
            old(self).lane(priority).len() > 0 ==> job is Some && job->0@ == old(self).lane(
                priority,
            )[0] && final(self).lane(priority) == old(self).lane(priority).drop_first(),
    {
        match priority {
            Priority::Normal => lane_pop(&mut self.normal),
            Priority::Low => lane_pop(&mut self.low),
        }
    }

    /// Takes out the job that is served next: the oldest of the `Normal`
    /// lane, or, where that lane is empty, the oldest of the `Low` lane. An
    /// empty queue gives `None`, which is no error.
    pub fn pop(&mut self) -> (job: Option<String>)
        ensures
            old(self).service_order().len() == 0 ==> job is None,
            old(self).service_order().len() > 0 ==> job is Some && job->0@ == old(
                self,
            ).service_order()[0],
            old(self).lane(Priority::Normal).len() > 0 ==> final(self).lane(Priority::Normal)
                == old(self).lane(Priority::Normal).drop_first() && final(self).lane(
                Priority::Low,
            ) == old(self).lane(Priority::Low),
            old(self).lane(Priority::Normal).len() == 0 ==> final(self).lane(Priority::Normal)
                == old(self).lane(Priority::Normal) && final(self).lane(Priority::Low) == if old(
                self,
            ).lane(Priority::Low).len() > 0 {
                old(self).lane(Priority::Low).drop_first()
            } else {
                old(self).lane(Priority::Low)
            },
    {
        match self.pop_priority(Priority::Normal) {
            Some(job) => Some(job),
            None => self.pop_priority(Priority::Low),
        }
    }

    /// Puts `value` at the end of the lane of `priority`, of the `Normal`
    /// lane where `priority` is `None`. The other lane stays as it is.
    pub fn push(&mut self, value: String, priority: Option<Priority>)
        ensures
            final(self).lane(priority.unwrap_or(Priority::Normal)) == old(self).lane(
                priority.unwrap_or(Priority::Normal),
            ).push(value@),
            forall|other: Priority|
                other != priority.unwrap_or(Priority::Normal) ==> final(self).lane(other) == old(
                    self,
                ).lane(other),
    {
        match priority.unwrap_or_default() {
            Priority::Normal => lane_push(&mut self.normal, value),
            Priority::Low => lane_push(&mut self.low, value),
        }
    }

    /// Whether no job waits in any lane.
    pub fn is_empty(&self) -> (empty: bool)
        ensures
            empty == (self.service_order().len() == 0),
    {
        lane_is_empty(&self.normal) && lane_is_empty(&self.low)
    }
}

} // verus!
