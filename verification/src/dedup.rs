//! Sets of URLs that keep the crawl from doing work twice.

use crate::html::texts;
use crate::link::{url_join, Link};
use dashmap::DashSet;
use vstd::prelude::*;

verus! {

/// `dashmap::DashSet`, a hash set. Of what it holds only `set_urls` speaks.
#[verifier::external_type_specification]
#[verifier::external_body]
#[verifier::reject_recursive_types(K)]
#[verifier::reject_recursive_types(S)]
pub struct ExDashSet<K, S>(DashSet<K, S>);

/// The URLs that a set holds.
pub uninterp spec fn set_urls(set: DashSet<String>) -> Set<Seq<char>>;

/// `DashSet::new` makes a set that holds nothing.
#[verifier::external_body]
fn set_new() -> (set: DashSet<String>)
    ensures
        set_urls(set) == Set::<Seq<char>>::empty(),
{
    DashSet::new()
}

/// `DashSet::contains` tells whether the set holds the key.
#[verifier::external_body]
fn set_contains(set: &DashSet<String>, url: &str) -> (held: bool)
    ensures
        held == set_urls(*set).contains(url@),
{
    set.contains(url)
}

/// `DashSet::insert` puts the key into the set and returns `true` if the
/// key was not already in it. The exclusive borrow keeps every other handle
/// away for the call.
#[verifier::external_body]
fn set_insert(set: &mut DashSet<String>, url: String) -> (fresh: bool)
    ensures
        set_urls(*final(set)) == set_urls(*old(set)).insert(url@),
        fresh == !set_urls(*old(set)).contains(url@),
{
    set.insert(url)
}

/// A set of URLs, each in its normal form.
///
/// A URL that has entered the set stays in it. To insert one twice is
/// allowed and changes nothing; the second insert only says that it was the
/// second.
#[derive(Debug)]
pub struct UrlSet {
    urls: DashSet<String>,
}

impl View for UrlSet {
    type V = Set<Seq<char>>;

    closed spec fn view(&self) -> Set<Seq<char>> {
        set_urls(self.urls)
    }
}

impl UrlSet {
    /// A set that holds no URL.
    pub fn new() -> (set: UrlSet)
        ensures
            set@ == Set::<Seq<char>>::empty(),
    {
        UrlSet { urls: set_new() }
    }

    /// Whether the set holds `url`.
    pub fn contains(&self, url: &str) -> (held: bool)
        ensures
            held == self@.contains(url@),
    {
        set_contains(&self.urls, url)
    }

    /// Puts `url` into the set and tells whether it was new. What the set
    /// held before, it still holds.
    pub fn insert(&mut self, url: String) -> (fresh: bool)
        ensures
            final(self)@ == old(self)@.insert(url@),
            fresh == !old(self)@.contains(url@),
    {
        set_insert(&mut self.urls, url)
    }
}

/// The URLs that the files of an earlier run mirror: what each of `files`,
/// the path of a file relative to the directory of the host of `target`,
/// gives when it is read as a reference against `target`.
pub open spec fn mirrored(target: Seq<char>, files: Seq<Seq<char>>) -> Set<Seq<char>> {
    Set::new(
        |url: Seq<char>|
            exists|i: int| 0 <= i < files.len() && url_join(target, #[trigger] files[i]) == Some(url),
    )
}

/// Puts the URLs that `files` mirror below `target` into `urls`. A file
/// whose path gives no URL is passed over.
pub fn insert_files(target: &Link, files: &Vec<String>, urls: &mut UrlSet)
    ensures
        final(urls)@ == old(urls)@.union(mirrored(target.href@, texts(files@))),
{
    let mut i: usize = 0;
    while i < files.len()
        invariant
            i <= files.len(),
            urls@ == old(urls)@.union(mirrored(target.href@, texts(files@).take(i as int))),
        decreases files.len() - i,
    {
        let ghost seen = texts(files@).take(i as int);
        let ghost next = texts(files@).take(i + 1);
        match target.join(files[i].as_str()) {
            Some(url) => {
                let ghost text = url@;
                urls.insert(url);
                proof {
                    assert(next[i as int] == files@[i as int]@);
                    assert forall|u: Seq<char>|
                        mirrored(target.href@, next).contains(u) <==> (mirrored(
                            target.href@,
                            seen,
                        ).contains(u) || u == text) by {
                        if mirrored(target.href@, seen).contains(u) {
                            let k = choose|k: int|
                                0 <= k < seen.len() && url_join(target.href@, #[trigger] seen[k])
                                    == Some(u);
                            assert(next[k] == seen[k]);
                        }
                        if mirrored(target.href@, next).contains(u) {
                            let k = choose|k: int|
                                0 <= k < next.len() && url_join(target.href@, #[trigger] next[k])
                                    == Some(u);
                            if k < i {
                                assert(next[k] == seen[k]);
                            }
                        }
                    }
                    assert(urls@ == old(urls)@.union(mirrored(target.href@, next)));
                }
            },
            None => {
                proof {
                    assert(next[i as int] == files@[i as int]@);
                    assert forall|u: Seq<char>|
                        mirrored(target.href@, next).contains(u) <==> mirrored(
                            target.href@,
                            seen,
                        ).contains(u) by {
                        if mirrored(target.href@, seen).contains(u) {
                            let k = choose|k: int|
                                0 <= k < seen.len() && url_join(target.href@, #[trigger] seen[k])
                                    == Some(u);
                            assert(next[k] == seen[k]);
                        }
                        if mirrored(target.href@, next).contains(u) {
                            let k = choose|k: int|
                                0 <= k < next.len() && url_join(target.href@, #[trigger] next[k])
                                    == Some(u);
                            assert(next[k] == seen[k]);
                        }
                    }
                    assert(mirrored(target.href@, next) == mirrored(target.href@, seen));
                }
            },
        }
        i = i + 1;
    }
    assert(texts(files@).take(i as int) == texts(files@));
}

/// Inserting a URL a second time changes nothing: the set after both
/// inserts is the set after the first, and it holds the URL.
pub proof fn insert_twice_is_insert_once(urls: Set<Seq<char>>, url: Seq<char>)
    ensures
        urls.insert(url).insert(url) == urls.insert(url),
        urls.insert(url).contains(url),
        urls.subset_of(urls.insert(url)),
{
}

} // verus!
