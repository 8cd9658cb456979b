//! Which of the references of a page become jobs.
//!
//! A reference becomes a job where it does not climb above its page, can be
//! resolved to a URL, and that URL is not yet checked and lies below one of
//! the targets of the crawl. The job is a `Low` one where a file of an
//! earlier run already mirrors the URL, else a `Normal` one.

use crate::link::{resolved, text_of, Link, LinkView};
use crate::priority_queue::Priority;
use crate::text::starts_with;
use vstd::prelude::*;

verus! {

/// The values of a list of links.
pub open spec fn link_views(links: Seq<Link>) -> Seq<LinkView> {
    links.map_values(|link: Link| link@)
}

/// The URLs of a list of links.
pub open spec fn hrefs(links: Seq<LinkView>) -> Seq<Seq<char>> {
    links.map_values(|link: LinkView| link.href)
}

/// Whether `reference` begins with `..` and so points above the page that
/// holds it.
pub open spec fn climbs(reference: Seq<char>) -> bool {
    seq!['.', '.'].is_prefix_of(reference)
}

/// Whether `link` lies below `target`: on the same host, with a path that
/// begins with the path of `target`.
pub open spec fn below(link: LinkView, target: LinkView) -> bool {
    link.host == target.host && target.path.is_prefix_of(link.path)
}

/// Whether `link` lies below one of `targets`.
pub open spec fn in_scope(link: LinkView, targets: Seq<LinkView>) -> bool {
    exists|i: int| 0 <= i < targets.len() && below(link, #[trigger] targets[i])
}

/// The priority at which the URL `link` becomes a job, if it becomes one.
///
/// A URL that is already checked and one that is out of scope give no job.
/// One that a file of an earlier run already mirrors gives a job of `Low`
/// priority, and one that is new a job of `Normal` priority: what was never
/// seen goes before what is only looked at again.
pub open spec fn admission(
    link: LinkView,
    targets: Seq<LinkView>,
    checked: Set<Seq<char>>,
    seeded: Set<Seq<char>>,
) -> Option<Priority> {
    if checked.contains(link.href) || !in_scope(link, targets) {
        None
    } else if seeded.contains(link.href) {
        Some(Priority::Low)
    } else {
        Some(Priority::Normal)
    }
}

/// What becomes of a reference found in the page at `base`: the job that it
/// gives and the priority of that job, or nothing.
///
/// A reference gives no job where it climbs and where it cannot be resolved.
/// Else it gives its URL as a job, where that URL is admitted, at the
/// priority of its admission.
pub open spec fn verdict(
    base: Seq<char>,
    reference: Seq<char>,
    targets: Seq<LinkView>,
    checked: Set<Seq<char>>,
    seeded: Set<Seq<char>>,
) -> Option<(Seq<char>, Priority)> {
    if climbs(reference) {
        None
    } else {
        match resolved(base, reference) {
            Some(link) => match admission(link, targets, checked, seeded) {
                Some(priority) => Some((link.href, priority)),
                None => None,
            },
            None => None,
        }
    }
}

/// The jobs of priority `priority` that the references of a page give, in
/// the order of the references.
pub open spec fn discovered(
    base: Seq<char>,
    references: Seq<Seq<char>>,
    targets: Seq<LinkView>,
    checked: Set<Seq<char>>,
    seeded: Set<Seq<char>>,
    priority: Priority,
) -> Seq<Seq<char>>
    decreases references.len(),
{
    if references.len() == 0 {
        Seq::empty()
    } else {
        let earlier = discovered(base, references.drop_last(), targets, checked, seeded, priority);
        match verdict(base, references.last(), targets, checked, seeded) {
            Some((job, given)) => if given == priority {
                earlier.push(job)
            } else {
                earlier
            },
            None => earlier,
        }
    }
}

/// A URL is not admitted where, for every target, its host is another or
/// its path does not begin with the path of the target, whatever the sets
/// hold.
pub proof fn out_of_scope_is_not_admitted(
    link: LinkView,
    targets: Seq<LinkView>,
    checked: Set<Seq<char>>,
    seeded: Set<Seq<char>>,
)
    requires
        forall|i: int|
            0 <= i < targets.len() ==> link.host != (#[trigger] targets[i]).host
                || !targets[i].path.is_prefix_of(link.path),
    ensures
        admission(link, targets, checked, seeded) is None,
{
}

/// Every job that the references of a page give is the URL of one of the
/// references, and that URL lies below a target and is not checked. So a URL
/// that is out of scope never becomes a job, however often and in whatever
/// pages it is found.
pub proof fn discovered_jobs_are_in_scope(
    base: Seq<char>,
    references: Seq<Seq<char>>,
    targets: Seq<LinkView>,
    checked: Set<Seq<char>>,
    seeded: Set<Seq<char>>,
    priority: Priority,
    i: int,
)
    requires
        0 <= i < discovered(base, references, targets, checked, seeded, priority).len(),
    ensures
        exists|j: int|
            #![trigger references[j]]
            {
                &&& 0 <= j < references.len()
                &&& resolved(base, references[j]) matches Some(link)
                &&& link.href == discovered(base, references, targets, checked, seeded, priority)[i]
                &&& in_scope(link, targets)
                &&& !checked.contains(link.href)
                &&& !climbs(references[j])
                &&& (priority == Priority::Low <==> seeded.contains(link.href))
            },
    decreases references.len(),
{
    let earlier = discovered(base, references.drop_last(), targets, checked, seeded, priority);
    if i < earlier.len() {
        discovered_jobs_are_in_scope(
            base,
            references.drop_last(),
            targets,
            checked,
            seeded,
            priority,
            i,
        );
        let j = choose|j: int|
            #![trigger references.drop_last()[j]]
            {
                &&& 0 <= j < references.drop_last().len()
                &&& resolved(base, references.drop_last()[j]) matches Some(link)
                &&& link.href == earlier[i]
                &&& in_scope(link, targets)
                &&& !checked.contains(link.href)
                &&& !climbs(references.drop_last()[j])
                &&& (priority == Priority::Low <==> seeded.contains(link.href))
            };
        assert(references[j] == references.drop_last()[j]);
    } else {
        let j = references.len() - 1;
        assert(references[j] == references.last());
    }
}

/// Whether two optional strings hold the same text, or both none.
fn same_text(a: &Option<String>, b: &Option<String>) -> (same: bool)
    ensures
        same == (text_of(*a) == text_of(*b)),
{
    match (a, b) {
        (Some(a), Some(b)) => *a == *b,
        (None, None) => true,
        _ => false,
    }
}

/// Whether `link` lies below one of `targets`.
pub fn is_in_scope(link: &Link, targets: &Vec<Link>) -> (inside: bool)
    ensures
        inside == in_scope(link@, link_views(targets@)),
{
    let mut i: usize = 0;
    while i < targets.len()
        invariant
            i <= targets.len(),
            forall|j: int| 0 <= j < i ==> !below(link@, #[trigger] link_views(targets@)[j]),
        decreases targets.len() - i,
    {
        let target = &targets[i];
        assert(link_views(targets@)[i as int] == target@);
        if same_text(&link.host, &target.host) && starts_with(
            link.path.as_str(),
            target.path.as_str(),
        ) {
            return true;
        }
        i = i + 1;
    }
    false
}

/// The value of an optional job with its priority.
pub open spec fn job_view(job: Option<(String, Priority)>) -> Option<(Seq<char>, Priority)> {
    match job {
        Some((url, priority)) => Some((url@, priority)),
        None => None,
    }
}

} // verus!
