//! The policy of a crawl worker: which job comes next, what happens to a job
//! that was tried, and which of the references of a page become jobs.

use crate::dedup::UrlSet;
use crate::discovery::{
    admission, discovered, hrefs, is_in_scope, job_view, link_views, verdict,
};
use crate::error::Error;
use crate::html::{max_document_bytes, page_references, references, texts};
use crate::link::{text_of, Link, LinkView};
use crate::priority_queue::{Priority, PriorityQueue};
use crate::termination::{decision, wake_up, Wake};
use crate::text::starts_with;
use vstd::prelude::*;
use vstd::string::StringSliceAdditionalSpecFns;

verus! {

/// What a crawl is asked to do.
#[derive(Debug, Clone)]
pub struct Settings {
    /// The directory below which the mirror is written.
    pub output_path: String,
    /// The URLs at which the crawl starts. Only what lies below one of them
    /// is mirrored.
    pub targets: Vec<Link>,
}

/// The number of jobs at the head of `order` that are already checked.
pub open spec fn checked_prefix(order: Seq<Seq<char>>, checked: Set<Seq<char>>) -> nat
    decreases order.len(),
{
    if order.len() > 0 && checked.contains(order[0]) {
        1 + checked_prefix(order.drop_first(), checked)
    } else {
        0
    }
}

/// The checked jobs at the head of `order` are jobs of `order`.
pub proof fn checked_prefix_is_bounded(order: Seq<Seq<char>>, checked: Set<Seq<char>>)
    ensures
        checked_prefix(order, checked) <= order.len(),
    decreases order.len(),
{
    if order.len() > 0 && checked.contains(order[0]) {
        checked_prefix_is_bounded(order.drop_first(), checked);
    }
}

/// How a job ended.
#[derive(Debug, Clone, Copy, PartialEq, Eq, Structural)]
pub enum Outcome {
    /// The resource was fetched and its URL is now checked.
    Saved,
    /// The resource was fetched, and its URL had been checked before:
    /// another job for the same URL was under way at the same time.
    CheckedTwice,
    /// The job failed and waits in the queue again.
    Requeued,
}

/// What has happened to a worker since its last step.
#[derive(Debug, Clone, PartialEq, Eq)]
pub enum Event {
    /// Nothing: the worker is free to take a job.
    Ready,
    /// The worker has tried to fetch `url`, and `fetched` tells whether
    /// the resource is now on disk.
    Tried { url: String, fetched: bool },
    /// The worker has announced itself idle, has waited, and has then seen
    /// `busy` busy workers.
    Woke { busy: usize },
}

/// What a worker does next.
#[derive(Debug, Clone, PartialEq, Eq)]
pub enum Action {
    /// It fetches `url`, and then tells how it went.
    Fetch { url: String },
    /// The job for `url` is settled with `outcome`, and the worker is
    /// ready again.
    Settled { url: String, outcome: Outcome },
    /// No job is left for now: it announces itself idle, waits, and then
    /// tells how many workers are busy.
    Wait,
    /// It leaves its loop for good.
    Exit,
    /// It announces itself busy and is ready again.
    Resume,
}

/// The state that the workers of a crawl share, and the rules by which a
/// worker changes it.
#[derive(Debug)]
pub struct Worker {
    settings: Settings,
    priority_queue: PriorityQueue,
    checked_urls: UrlSet,
    downloaded_urls: UrlSet,
}

impl Worker {
    /// What the crawl is asked to do.
    pub closed spec fn config(&self) -> Settings {
        self.settings
    }

    /// The targets of the crawl.
    pub open spec fn targets(&self) -> Seq<LinkView> {
        link_views(self.config().targets@)
    }

    /// The jobs that wait at `priority`, the oldest first.
    pub closed spec fn lane(&self, priority: Priority) -> Seq<Seq<char>> {
        self.priority_queue.lane(priority)
    }

    /// All waiting jobs in the order in which they are served.
    pub open spec fn service_order(&self) -> Seq<Seq<char>> {
        self.lane(Priority::Normal) + self.lane(Priority::Low)
    }

    /// The URLs that were fetched.
    pub closed spec fn checked(&self) -> Set<Seq<char>> {
        self.checked_urls@
    }

    /// The URLs that a file of an earlier run mirrors.
    pub closed spec fn seeded(&self) -> Set<Seq<char>> {
        self.downloaded_urls@
    }

    /// Whether `other` differs from `self` at most in its queue.
    pub open spec fn same_sets(&self, other: &Worker) -> bool {
        &&& self.config() == other.config()
        &&& self.checked() == other.checked()
        &&& self.seeded() == other.seeded()
    }

    /// A worker on the given queue and sets.
    pub fn new(
        priority_queue: PriorityQueue,
        settings: Settings,
        checked_urls: UrlSet,
        downloaded_urls: UrlSet,
    ) -> (worker: Worker)
        ensures
            worker.config() == settings,
            worker.lane(Priority::Normal) == priority_queue.lane(Priority::Normal),
            worker.lane(Priority::Low) == priority_queue.lane(Priority::Low),
            worker.checked() == checked_urls@,
            worker.seeded() == downloaded_urls@,
    {
        Worker { settings, priority_queue, checked_urls, downloaded_urls }
    }

    /// The number of jobs that `next_job` takes out of a queue with the
    /// service order `order`: the checked jobs at its head and, where one is
    /// left behind them, the first job that is not checked.
    pub open spec fn taken(order: Seq<Seq<char>>, checked: Set<Seq<char>>) -> nat {
        if checked_prefix(order, checked) < order.len() {
            checked_prefix(order, checked) + 1
        } else {
            order.len()
        }
    }

    /// The number of jobs that `next_job` takes out of the `Normal` lane of
    /// `worker`: all that it takes, as far as that lane holds them.
    pub open spec fn taken_from_normal(worker: &Worker) -> int {
        if Self::taken(worker.service_order(), worker.checked()) <= worker.lane(
            Priority::Normal,
        ).len() {
            Self::taken(worker.service_order(), worker.checked()) as int
        } else {
            worker.lane(Priority::Normal).len() as int
        }
    }

    /// Whether `after` and `job` are what `next_job` makes of `self`: the
    /// job is the first in service order that is not checked, if there is
    /// one; it and the checked jobs before it have left their lanes, the
    /// `Normal` lane first; nothing else has changed.
    pub open spec fn polled(&self, after: &Worker, job: Option<Seq<char>>) -> bool {
        let order = self.service_order();
        let dropped = checked_prefix(order, self.checked());
        &&& after.same_sets(self)
        &&& job == if dropped < order.len() {
            Some(order[dropped as int])
        } else {
            None
        }
        &&& after.lane(Priority::Normal) == self.lane(Priority::Normal).skip(
            Self::taken_from_normal(self),
        )
        &&& after.lane(Priority::Low) == self.lane(Priority::Low).skip(
            Self::taken(order, self.checked()) - Self::taken_from_normal(self),
        )
    }

    /// Takes the next job to work on out of the queue: the first in service
    /// order whose URL is not checked yet. The checked jobs before it are
    /// taken out and dropped. Where no job is left, the result is `None` and
    /// the queue is empty.
    pub fn next_job(&mut self) -> (job: Option<String>)
        ensures
            old(self).polled(final(self), text_of(job)),
            job is Some ==> !old(self).checked().contains(job->0@),
            job is None ==> final(self).service_order().len() == 0,
    {
        let ghost order = self.service_order();
        let ghost checked = self.checked();
        let ghost mut dropped: nat = 0;
        proof {
            assert(order.skip(0) == order);
        }
        loop
            invariant
                self.same_sets(old(self)),
                order == old(self).service_order(),
                checked == old(self).checked(),
                dropped <= order.len(),
                self.service_order() == order.skip(dropped as int),
                checked_prefix(order, checked) == dropped + checked_prefix(
                    order.skip(dropped as int),
                    checked,
                ),
                dropped <= old(self).lane(Priority::Normal).len() ==> self.lane(Priority::Normal)
                    == old(self).lane(Priority::Normal).skip(dropped as int) && self.lane(
                    Priority::Low,
                ) == old(self).lane(Priority::Low),
                dropped > old(self).lane(Priority::Normal).len() ==> self.lane(Priority::Normal)
                    == Seq::<Seq<char>>::empty() && self.lane(Priority::Low) == old(self).lane(
                    Priority::Low,
                ).skip(dropped - old(self).lane(Priority::Normal).len()),
            decreases order.len() - dropped,
        {
            let ghost before = self.service_order();
            let ghost normal = self.lane(Priority::Normal);
            let ghost low = self.lane(Priority::Low);
            proof {
                checked_prefix_is_bounded(before, checked);
            }
            match self.priority_queue.pop() {
                Some(job) => {
                    proof {
                        if normal.len() > 0 {
                            assert(normal.drop_first() + low == before.drop_first());
                        } else {
                            assert(normal + low.drop_first() == before.drop_first());
                        }
                        assert(before.drop_first() == order.skip(dropped as int + 1));
                    }
                    if !self.checked_urls.contains(job.as_str()) {
                        proof {
                            checked_prefix_is_bounded(order, checked);
                            assert(checked_prefix(order, checked) == dropped);
                            assert(job@ == order[dropped as int]);
                            assert(Self::taken(order, checked) == dropped + 1);
                            assert(self.lane(Priority::Normal) =~= old(self).lane(
                                Priority::Normal,
                            ).skip(Self::taken_from_normal(old(self))));
                            assert(self.lane(Priority::Low) =~= old(self).lane(Priority::Low).skip(
                                Self::taken(order, checked) - Self::taken_from_normal(old(self)),
                            ));
                        }
                        return Some(job);
                    }
                    proof {
                        dropped = dropped + 1;
                    }
                },
                None => {
                    assert(dropped == order.len());
                    assert(normal + low == before);
                    assert(checked_prefix(order, checked) == dropped);
                    assert(Self::taken(order, checked) == dropped);
                    assert(self.lane(Priority::Normal) =~= old(self).lane(Priority::Normal).skip(
                        Self::taken_from_normal(old(self)),
                    ));
                    assert(self.lane(Priority::Low) =~= old(self).lane(Priority::Low).skip(
                        Self::taken(order, checked) - Self::taken_from_normal(old(self)),
                    ));
                    return None;
                },
            }
        }
    }

    /// Puts the targets of the crawl into the queue, in their order, at the
    /// priority of a job whose priority is not given.
    pub fn seed(&mut self)
        ensures
            final(self).same_sets(old(self)),
            final(self).lane(Priority::Low) == old(self).lane(Priority::Low),
            final(self).lane(Priority::Normal) == old(self).lane(Priority::Normal) + hrefs(
                old(self).targets(),
            ),
    {
        let mut i: usize = 0;
        while i < self.settings.targets.len()
            invariant
                i <= self.settings.targets.len(),
                self.settings == old(self).settings,
                self.same_sets(old(self)),
                self.lane(Priority::Low) == old(self).lane(Priority::Low),
                self.lane(Priority::Normal) == old(self).lane(Priority::Normal) + hrefs(
                    old(self).targets(),
                ).take(i as int),
            decreases self.settings.targets.len() - i,
        {
            let url = self.settings.targets[i].href.clone();
            assert(hrefs(old(self).targets()).take(i + 1) == hrefs(old(self).targets()).take(
                i as int,
            ).push(url@));
            self.priority_queue.push(url, None);
            i = i + 1;
        }
        assert(hrefs(old(self).targets()).take(i as int) == hrefs(old(self).targets()));
    }

    /// The priority at which the URL `link` becomes a job, if it becomes
    /// one.
    pub fn classify(&self, link: &Link) -> (priority: Option<Priority>)
        ensures
            priority == admission(link@, self.targets(), self.checked(), self.seeded()),
    {
        if self.checked_urls.contains(link.href.as_str()) || !is_in_scope(
            link,
            &self.settings.targets,
        ) {
            None
        } else if self.downloaded_urls.contains(link.href.as_str()) {
            Some(Priority::Low)
        } else {
            Some(Priority::Normal)
        }
    }

    /// What becomes of a reference found in the page at `base`: the job
    /// that it gives and the priority of that job, or nothing.
    pub fn judge(&self, base: &Link, reference: &str) -> (job: Option<(String, Priority)>)
        ensures
            job_view(job) == verdict(
                base.href@,
                reference@,
                self.targets(),
                self.checked(),
                self.seeded(),
            ),
    {
        proof {
            reveal_strlit("..");
            assert(".."@ == seq!['.', '.']);
        }
        if starts_with(reference, "..") {
            return None;
        }
        match base.resolve(reference) {
            Some(link) => match self.classify(&link) {
                Some(priority) => Some((link.href, priority)),
                None => None,
            },
            None => None,
        }
    }

    /// Puts the jobs that the references of the page at `base` give into
    /// the queue, each at the end of the lane of its priority, in the order
    /// of the references. Nothing else changes.
    pub fn enqueue(&mut self, base: &Link, references: &Vec<String>)
        ensures
            final(self).same_sets(old(self)),
            forall|priority: Priority|
                #![trigger final(self).lane(priority)]
                final(self).lane(priority) == old(self).lane(priority) + discovered(
                    base.href@,
                    texts(references@),
                    old(self).targets(),
                    old(self).checked(),
                    old(self).seeded(),
                    priority,
                ),
    {
        let mut i: usize = 0;
        while i < references.len()
            invariant
                i <= references.len(),
                self.same_sets(old(self)),
                forall|priority: Priority|
                    #![trigger self.lane(priority)]
                    self.lane(priority) == old(self).lane(priority) + discovered(
                        base.href@,
                        texts(references@).take(i as int),
                        old(self).targets(),
                        old(self).checked(),
                        old(self).seeded(),
                        priority,
                    ),
            decreases references.len() - i,
        {
            let ghost seen = texts(references@).take(i + 1);
            let ghost normal = self.lane(Priority::Normal);
            let ghost low = self.lane(Priority::Low);
            proof {
                assert(seen.drop_last() == texts(references@).take(i as int));
                assert(seen.last() == references@[i as int]@);
            }
            match self.judge(base, references[i].as_str()) {
                Some((job, priority)) => {
                    self.priority_queue.push(job, Some(priority));
                },
                None => {},
            }
            proof {
                let targets = old(self).targets();
                let checked = old(self).checked();
                let seeded = old(self).seeded();
                let earlier_normal = discovered(
                    base.href@,
                    seen.drop_last(),
                    targets,
                    checked,
                    seeded,
                    Priority::Normal,
                );
                let earlier_low = discovered(
                    base.href@,
                    seen.drop_last(),
                    targets,
                    checked,
                    seeded,
                    Priority::Low,
                );
                assert(normal == old(self).lane(Priority::Normal) + earlier_normal);
                assert(low == old(self).lane(Priority::Low) + earlier_low);
                assert(self.lane(Priority::Normal) == old(self).lane(Priority::Normal)
                    + discovered(base.href@, seen, targets, checked, seeded, Priority::Normal));
                assert(self.lane(Priority::Low) == old(self).lane(Priority::Low) + discovered(
                    base.href@,
                    seen,
                    targets,
                    checked,
                    seeded,
                    Priority::Low,
                ));
                assert forall|priority: Priority|
                    #![trigger self.lane(priority)]
                    self.lane(priority) == old(self).lane(priority) + discovered(
                        base.href@,
                        seen,
                        targets,
                        checked,
                        seeded,
                        priority,
                    ) by {
                    match priority {
                        Priority::Normal => {},
                        Priority::Low => {},
                    }
                }
            }
            i = i + 1;
        }
        assert(texts(references@).take(i as int) == texts(references@));
    }

    /// Reads the page `document` that was fetched from `base_url` and puts
    /// the jobs that its references give into the queue. A document that is
    /// too long for the parser is an error, and then nothing changes.
    pub fn parse(&mut self, base_url: &Link, document: &str) -> (done: Result<(), Error>)
        ensures
            final(self).same_sets(old(self)),
            done is Ok <==> document.spec_bytes().len() <= max_document_bytes(),
            done matches Err(error) ==> error == Error::HtmlParse,
            forall|priority: Priority|
                #![trigger final(self).lane(priority)]
                final(self).lane(priority) == if done is Ok {
                    old(self).lane(priority) + discovered(
                        base_url.href@,
                        page_references(document@),
                        old(self).targets(),
                        old(self).checked(),
                        old(self).seeded(),
                        priority,
                    )
                } else {
                    old(self).lane(priority)
                },
    {
        match references(document) {
            Ok(found) => {
                self.enqueue(base_url, &found);
                Ok(())
            },
            Err(error) => Err(error),
        }
    }

    /// Whether `after` and `outcome` are what `settle` makes of `self`. A
    /// job that failed stands at the end of the `Normal` lane, once more than
    /// before, and nothing else has changed. The URL of a job that was
    /// fetched is checked, and the queue is as it was.
    pub open spec fn settled(
        &self,
        after: &Worker,
        url: Seq<char>,
        fetched: bool,
        outcome: Outcome,
    ) -> bool {
        &&& after.config() == self.config()
        &&& after.seeded() == self.seeded()
        &&& after.lane(Priority::Low) == self.lane(Priority::Low)
        &&& if fetched {
            &&& after.lane(Priority::Normal) == self.lane(Priority::Normal)
            &&& after.checked() == self.checked().insert(url)
            &&& outcome == if self.checked().contains(url) {
                Outcome::CheckedTwice
            } else {
                Outcome::Saved
            }
        } else {
            &&& after.lane(Priority::Normal) == self.lane(Priority::Normal).push(url)
            &&& after.checked() == self.checked()
            &&& outcome == Outcome::Requeued
        }
    }

    /// Ends a job. A job that failed goes back to the end of the `Normal`
    /// lane, once, and nothing else changes. The URL of a job that was
    /// fetched enters the checked set, and the queue stays as it is.
    pub fn settle(&mut self, url: String, fetched: bool) -> (outcome: Outcome)
        ensures
            old(self).settled(final(self), url@, fetched, outcome),
    {
        if fetched {
            if self.checked_urls.insert(url) {
                Outcome::Saved
            } else {
                Outcome::CheckedTwice
            }
        } else {
            self.priority_queue.push(url, Some(Priority::Normal));
            Outcome::Requeued
        }
    }

    /// The decision of this worker when it wakes up from its wait having
    /// seen `busy` busy workers: it leaves exactly if no worker is busy and no
    /// job waits.
    pub fn wake_up(&self, busy: usize) -> (wake: Wake)
        ensures
            wake == decision(busy as nat, self.service_order().len() == 0),
    {
        wake_up(busy, self.priority_queue.is_empty())
    }

    /// Takes one step of the loop of a worker: decides, from what has
    /// happened since the step before, what the worker does next.
    ///
    /// A worker that is ready takes the next job and fetches it, or waits
    /// where there is none. A worker that has tried a job settles it. A worker
    /// that wakes up leaves or goes on, and changes nothing.
    pub fn step(&mut self, event: Event) -> (action: Action)
        ensures
            match event {
                Event::Ready => match action {
                    Action::Fetch { url } => old(self).polled(final(self), Some(url@)),
                    Action::Wait => old(self).polled(final(self), None),
                    _ => false,
                },
                Event::Tried { url, fetched } => action matches Action::Settled {
                    url: settled,
                    outcome,
                } && settled@ == url@ && old(self).settled(final(self), url@, fetched, outcome),
                Event::Woke { busy } => *final(self) == *old(self) && action == match decision(
                    busy as nat,
                    old(self).service_order().len() == 0,
                ) {
                    Wake::Exit => Action::Exit,
                    Wake::Resume => Action::Resume,
                },
            },
    {
        match event {
            Event::Ready => match self.next_job() {
                Some(url) => Action::Fetch { url },
                None => Action::Wait,
            },
            Event::Tried { url, fetched } => {
                let outcome = self.settle(url.clone(), fetched);
                Action::Settled { url, outcome }
            },
            Event::Woke { busy } => match self.wake_up(busy) {
                Wake::Exit => Action::Exit,
                Wake::Resume => Action::Resume,
            },
        }
    }

    /// Whether `url` was fetched.
    pub fn is_checked(&self, url: &str) -> (held: bool)
        ensures
            held == self.checked().contains(url@),
    {
        self.checked_urls.contains(url)
    }

    /// Whether a file of an earlier run mirrors `url`.
    pub fn is_seeded(&self, url: &str) -> (held: bool)
        ensures
            held == self.seeded().contains(url@),
    {
        self.downloaded_urls.contains(url)
    }

    /// What the crawl is asked to do.
    pub fn settings(&self) -> (settings: &Settings)
        ensures
            *settings == self.config(),
    {
        &self.settings
    }
}

/// A [`Settings`] in the making. Each of the two parts is given once, in
/// either order, and only when both are given can the settings be built.
#[derive(Debug, Clone)]
pub struct SettingsBuilder<P, T> {
    pub output_path: P,
    pub targets: T,
}

impl Settings {
    /// Begins to build settings.
    pub fn builder() -> SettingsBuilder<(), ()> {
        SettingsBuilder { output_path: (), targets: () }
    }
}

impl<T> SettingsBuilder<(), T> {
    /// Gives the directory below which the mirror is written.
    pub fn output_path(self, output_path: String) -> (builder: SettingsBuilder<String, T>)
        ensures
            builder.output_path == output_path,
            builder.targets == self.targets,
    {
        SettingsBuilder { output_path, targets: self.targets }
    }
}

impl<P> SettingsBuilder<P, ()> {
    /// Gives the URLs at which the crawl starts.
    pub fn targets(self, targets: Vec<Link>) -> (builder: SettingsBuilder<P, Vec<Link>>)
        ensures
            builder.output_path == self.output_path,
            builder.targets == targets,
    {
        SettingsBuilder { output_path: self.output_path, targets }
    }
}

impl SettingsBuilder<String, Vec<Link>> {
    /// The settings with the parts that were given.
    pub fn build(self) -> (settings: Settings)
        ensures
            settings.output_path == self.output_path,
            settings.targets == self.targets,
    {
        Settings { output_path: self.output_path, targets: self.targets }
    }
}

} // verus!
