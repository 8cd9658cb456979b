use wmt::dedup::UrlSet;
use wmt::html::{keep_present, references};
use wmt::priority_queue::{Priority, PriorityQueue};
use wmt::termination::{wake_up, Wake};
use wmt::text::{chars_of, same_text, starts_with};
use wmt::dedup::insert_files;
use wmt::discovery::is_in_scope;
use wmt::worker::{Action, Event, Outcome};
use wmt::{Link, Settings, Worker};

fn link(text: &str) -> Link {
    Link::parse(text).unwrap()
}

fn worker_on(targets: &[&str]) -> Worker {
    let settings = Settings::builder()
        .output_path("out".to_string())
        .targets(targets.iter().map(|target| link(target)).collect())
        .build();
    Worker::new(PriorityQueue::new(), settings, UrlSet::new(), UrlSet::new())
}

fn drain(worker: &mut Worker) -> Vec<String> {
    let mut jobs = Vec::new();
    while let Some(job) = worker.next_job() {
        jobs.push(job);
    }
    jobs
}

#[test]
fn the_targets_are_the_first_jobs() {
    let mut worker = worker_on(&["https://example.com/docs/", "https://example.org"]);
    assert_eq!(worker.wake_up(0), Wake::Exit);
    worker.seed();
    assert_eq!(worker.wake_up(0), Wake::Resume);
    assert_eq!(
        drain(&mut worker),
        vec!["https://example.com/docs/", "https://example.org/"]
    );
    assert_eq!(worker.settings().output_path, "out");
    assert_eq!(worker.settings().targets.len(), 2);
}

#[test]
fn a_checked_job_is_passed_over() {
    let mut queue = PriorityQueue::new();
    queue.push("https://example.com/a".to_string(), None);
    queue.push("https://example.com/b".to_string(), Some(Priority::Low));
    queue.push("https://example.com/c".to_string(), None);
    queue.push("https://example.com/d".to_string(), Some(Priority::Low));
    let mut checked = UrlSet::new();
    checked.insert("https://example.com/a".to_string());
    checked.insert("https://example.com/c".to_string());
    checked.insert("https://example.com/b".to_string());
    let settings = Settings { output_path: String::new(), targets: Vec::new() };
    let mut worker = Worker::new(queue, settings, checked, UrlSet::new());
    assert_eq!(worker.next_job(), Some("https://example.com/d".to_string()));
    assert_eq!(worker.next_job(), None);
    assert_eq!(worker.next_job(), None);
}

#[test]
fn a_job_that_is_not_checked_stops_the_search() {
    let mut queue = PriorityQueue::new();
    queue.push("https://example.com/a".to_string(), None);
    queue.push("https://example.com/b".to_string(), None);
    queue.push("https://example.com/c".to_string(), Some(Priority::Low));
    let mut checked = UrlSet::new();
    checked.insert("https://example.com/a".to_string());
    checked.insert("https://example.com/c".to_string());
    let settings = Settings { output_path: String::new(), targets: Vec::new() };
    let mut worker = Worker::new(queue, settings, checked, UrlSet::new());
    assert_eq!(worker.next_job(), Some("https://example.com/b".to_string()));
    assert_eq!(worker.wake_up(0), Wake::Resume);
    assert_eq!(worker.next_job(), None);
    assert_eq!(worker.wake_up(0), Wake::Exit);
}

#[test]
fn a_failed_job_waits_again_as_a_normal_job_once() {
    let mut worker = worker_on(&["https://example.com/"]);
    let mut low = PriorityQueue::new();
    low.push("https://example.com/old".to_string(), Some(Priority::Low));
    let settings = Settings { output_path: String::new(), targets: Vec::new() };
    let mut other = Worker::new(low, settings, UrlSet::new(), UrlSet::new());

    assert_eq!(
        worker.settle("https://example.com/a".to_string(), false),
        Outcome::Requeued
    );
    assert!(!worker.is_checked("https://example.com/a"));
    assert_eq!(drain(&mut worker), vec!["https://example.com/a"]);

    assert_eq!(
        other.settle("https://example.com/a".to_string(), false),
        Outcome::Requeued
    );
    assert_eq!(
        drain(&mut other),
        vec!["https://example.com/a", "https://example.com/old"]
    );
}

#[test]
fn each_failure_puts_the_job_back_once() {
    let mut worker = worker_on(&["https://example.com/"]);
    worker.settle("https://example.com/a".to_string(), false);
    let job = worker.next_job().unwrap();
    assert_eq!(worker.next_job(), None);
    worker.settle(job, false);
    assert_eq!(drain(&mut worker), vec!["https://example.com/a"]);
}

#[test]
fn a_url_that_is_checked_twice_stays_checked() {
    let mut worker = worker_on(&["https://example.com/"]);
    assert_eq!(
        worker.settle("https://example.com/a".to_string(), true),
        Outcome::Saved
    );
    assert!(worker.is_checked("https://example.com/a"));
    assert_eq!(
        worker.settle("https://example.com/a".to_string(), true),
        Outcome::CheckedTwice
    );
    assert!(worker.is_checked("https://example.com/a"));
    assert_eq!(worker.next_job(), None);
}

#[test]
fn only_what_lies_below_a_target_becomes_a_job() {
    let mut worker = worker_on(&["https://example.com/docs/", "https://static.example.com/"]);
    let base = link("https://example.com/docs/index.html");
    let found: Vec<String> = [
        "intro.html",
        "https://example.com/docs/a/b.html",
        "https://example.com/blog/post.html",
        "https://example.org/docs/intro.html",
        "/docs",
        "/docs/",
        "//static.example.com/style.css",
        "http://[::1",
        "../up.html",
        "mailto:someone@example.com",
        "https://other.example.com/docs/",
        "intro.html",
    ]
    .iter()
    .map(|reference| reference.to_string())
    .collect();
    worker.enqueue(&base, &found);
    assert_eq!(
        drain(&mut worker),
        vec![
            "https://example.com/docs/intro.html",
            "https://example.com/docs/a/b.html",
            "https://example.com/docs/",
            "https://static.example.com/style.css",
            "https://example.com/docs/intro.html",
        ]
    );
}

#[test]
fn a_url_out_of_scope_is_never_a_job_however_often_it_is_found() {
    let mut worker = worker_on(&["https://example.com/docs/"]);
    let base = link("https://example.com/docs/");
    let found = vec![
        "https://example.org/docs/".to_string(),
        "https://example.com/other/".to_string(),
    ];
    for _ in 0..5 {
        worker.enqueue(&base, &found);
        assert_eq!(worker.judge(&base, "https://example.org/docs/"), None);
        assert_eq!(worker.judge(&base, "https://example.com/other/"), None);
    }
    assert_eq!(worker.next_job(), None);
    assert_eq!(worker.wake_up(0), Wake::Exit);
}

#[test]
fn a_host_that_is_another_address_is_out_of_scope() {
    let worker = worker_on(&["http://10.0.0.1/"]);
    let base = link("http://10.0.0.1/");
    assert_eq!(worker.judge(&base, "http://10.0.0.2/a"), None);
    assert_eq!(
        worker.judge(&base, "http://10.0.0.1/a"),
        Some(("http://10.0.0.1/a".to_string(), Priority::Normal))
    );
}

#[test]
fn a_checked_url_is_no_job_and_a_mirrored_one_is_a_low_job() {
    let mut queue = PriorityQueue::new();
    queue.push("https://example.com/waiting".to_string(), Some(Priority::Low));
    let mut checked = UrlSet::new();
    checked.insert("https://example.com/done.html".to_string());
    let mut downloaded = UrlSet::new();
    downloaded.insert("https://example.com/old.html".to_string());
    let settings = Settings {
        output_path: "out".to_string(),
        targets: vec![link("https://example.com/")],
    };
    let mut worker = Worker::new(queue, settings, checked, downloaded);
    assert!(worker.is_seeded("https://example.com/old.html"));
    assert!(!worker.is_seeded("https://example.com/new.html"));
    let base = link("https://example.com/");

    assert_eq!(worker.judge(&base, "done.html"), None);
    assert_eq!(
        worker.judge(&base, "old.html"),
        Some(("https://example.com/old.html".to_string(), Priority::Low))
    );
    assert_eq!(
        worker.judge(&base, "new.html"),
        Some(("https://example.com/new.html".to_string(), Priority::Normal))
    );
    assert_eq!(worker.judge(&base, "..hidden"), None);
    assert_eq!(worker.judge(&base, "../new.html"), None);

    let found = vec![
        "old.html".to_string(),
        "done.html".to_string(),
        "new.html".to_string(),
    ];
    worker.enqueue(&base, &found);
    assert_eq!(
        drain(&mut worker),
        vec![
            "https://example.com/new.html",
            "https://example.com/waiting",
            "https://example.com/old.html",
        ]
    );
}

#[test]
fn the_references_of_a_page_become_jobs() {
    let mut worker = worker_on(&["https://example.com/"]);
    let base = link("https://example.com/a/index.html");
    let page = r#"<html><body>
        <a href="one.html">one</a>
        <a name="anchor">no reference</a>
        <p><a class="x" href="/two.html?x=1">two</a></p>
        <img src="picture.png">
        <a href="https://elsewhere.org/">out</a>
        <a href="../three.html">up</a>
    </body></html>"#;
    assert_eq!(worker.parse(&base, page), Ok(()));
    assert_eq!(
        drain(&mut worker),
        vec!["https://example.com/a/one.html", "https://example.com/two.html?x=1"]
    );
}

#[test]
fn a_page_that_is_no_html_gives_no_jobs_and_no_error() {
    let mut worker = worker_on(&["https://example.com/"]);
    let base = link("https://example.com/");
    assert_eq!(worker.parse(&base, "<a href=<<<>"), Ok(()));
    assert_eq!(worker.parse(&base, ""), Ok(()));
    assert_eq!(worker.parse(&base, "plain text"), Ok(()));
}

#[test]
fn references_are_the_values_of_href_in_the_order_of_the_page() {
    let page = r#"<a href="b">x</a><div><a href='a'>y</a></div><a>z</a><a href="c d">w</a><link href="style.css">"#;
    assert_eq!(references(page), Ok(vec!["b".to_string(), "a".to_string(), "c d".to_string()]));
    assert_eq!(references(""), Ok(Vec::new()));
}

#[test]
fn an_attribute_without_value_is_no_reference() {
    let page = r#"<a href>none</a><a href="">empty</a><a href="x">x</a>"#;
    assert_eq!(references(page), Ok(vec!["".to_string(), "x".to_string()]));
    assert_eq!(
        keep_present(&vec![None, Some("a".to_string()), None, Some("b".to_string())]),
        vec!["a".to_string(), "b".to_string()]
    );
    assert_eq!(keep_present(&vec![None, None]), Vec::<String>::new());
}

#[test]
fn the_files_of_an_earlier_run_are_read_as_references_against_the_target() {
    let target = link("https://example.com/docs/");
    let mut urls = UrlSet::new();
    urls.insert("https://example.com/kept".to_string());
    let files = vec![
        "index.html".to_string(),
        "a/b.html".to_string(),
        "".to_string(),
        "http://[::1".to_string(),
    ];
    insert_files(&target, &files, &mut urls);
    assert!(urls.contains("https://example.com/kept"));
    assert!(urls.contains("https://example.com/docs/index.html"));
    assert!(urls.contains("https://example.com/docs/a/b.html"));
    assert!(urls.contains("https://example.com/docs/"));
    assert!(!urls.contains("https://example.com/docs/a"));
    assert!(!urls.contains("http://[::1"));
}

#[test]
fn scope_is_the_host_and_the_beginning_of_the_path() {
    let targets = vec![link("https://example.com/docs/"), link("https://example.org/")];
    assert!(is_in_scope(&link("https://example.com/docs/"), &targets));
    assert!(is_in_scope(&link("https://example.com/docs/a?x"), &targets));
    assert!(is_in_scope(&link("http://example.org/anything"), &targets));
    assert!(!is_in_scope(&link("https://example.com/doc"), &targets));
    assert!(!is_in_scope(&link("https://example.com/"), &targets));
    assert!(!is_in_scope(&link("https://www.example.com/docs/"), &targets));
    assert!(!is_in_scope(&link("https://example.com/docs/"), &Vec::new()));
}

#[test]
fn starts_with_compares_the_beginning() {
    assert!(starts_with("../a", ".."));
    assert!(starts_with("..", ".."));
    assert!(starts_with("abc", ""));
    assert!(!starts_with(".", ".."));
    assert!(!starts_with("a..", ".."));
    assert!(!starts_with("", ".."));
    assert!(starts_with("/docs/ä/b", "/docs/ä"));
    assert!(!starts_with("/docs/a/b", "/docs/ä"));
}

#[test]
fn texts_are_compared_character_by_character() {
    assert!(same_text("text/html", "text/html"));
    assert!(same_text("", ""));
    assert!(!same_text("text/html", "text/htm"));
    assert!(!same_text("text/htmk", "text/html"));
    assert!(!same_text("ä", "a"));
    assert_eq!(chars_of("a/ä"), vec!['a', '/', 'ä']);
    assert_eq!(chars_of(""), Vec::<char>::new());
}

#[test]
fn a_worker_leaves_only_when_none_is_busy_and_no_job_waits() {
    assert_eq!(wake_up(0, true), Wake::Exit);
    assert_eq!(wake_up(0, false), Wake::Resume);
    assert_eq!(wake_up(1, true), Wake::Resume);
    assert_eq!(wake_up(3, false), Wake::Resume);
    assert_eq!(wake_up(usize::MAX, true), Wake::Resume);
}

#[test]
fn a_step_follows_from_what_has_happened() {
    let mut worker = worker_on(&["https://example.com/"]);
    worker.seed();
    assert_eq!(
        worker.step(Event::Ready),
        Action::Fetch { url: "https://example.com/".to_string() }
    );
    assert_eq!(worker.step(Event::Ready), Action::Wait);
    assert_eq!(worker.step(Event::Woke { busy: 1 }), Action::Resume);
    assert_eq!(
        worker.step(Event::Tried { url: "https://example.com/".to_string(), fetched: false }),
        Action::Settled { url: "https://example.com/".to_string(), outcome: Outcome::Requeued }
    );
    assert_eq!(worker.step(Event::Woke { busy: 0 }), Action::Resume);
    assert_eq!(
        worker.step(Event::Ready),
        Action::Fetch { url: "https://example.com/".to_string() }
    );
    assert_eq!(
        worker.step(Event::Tried { url: "https://example.com/".to_string(), fetched: true }),
        Action::Settled { url: "https://example.com/".to_string(), outcome: Outcome::Saved }
    );
    assert_eq!(
        worker.step(Event::Tried { url: "https://example.com/".to_string(), fetched: true }),
        Action::Settled { url: "https://example.com/".to_string(), outcome: Outcome::CheckedTwice }
    );
    assert_eq!(worker.step(Event::Ready), Action::Wait);
    assert_eq!(worker.step(Event::Woke { busy: 2 }), Action::Resume);
    assert_eq!(worker.step(Event::Woke { busy: 0 }), Action::Exit);
}

#[test]
fn a_pool_of_workers_ends_when_all_are_idle_and_no_job_waits() {
    let pages = [
        ("https://example.com/", vec!["a", "b", "c"]),
        ("https://example.com/a", vec!["b", "d"]),
        ("https://example.com/b", vec!["/"]),
        ("https://example.com/c", vec![]),
        ("https://example.com/d", vec!["a"]),
    ];
    for workers in 1..=4 {
        let mut core = worker_on(&["https://example.com/"]);
        core.seed();
        let mut busy = workers;
        let mut events: Vec<Option<Event>> = (0..workers).map(|_| Some(Event::Ready)).collect();
        let mut fetched = Vec::new();
        let mut failed_once = false;
        let mut turn = 0;
        while events.iter().any(|event| event.is_some()) {
            let who = turn % workers;
            turn += 1;
            let event = match events[who].take() {
                Some(Event::Woke { .. }) => Event::Woke { busy },
                Some(event) => event,
                None => continue,
            };
            events[who] = match core.step(event) {
                Action::Fetch { url } => {
                    let ok = failed_once || url != "https://example.com/b";
                    failed_once = failed_once || !ok;
                    if ok {
                        let page = pages.iter().find(|(page, _)| *page == url).unwrap();
                        let found: Vec<String> = page.1.iter().map(|r| r.to_string()).collect();
                        core.enqueue(&link(&url), &found);
                        fetched.push(url.clone());
                    }
                    Some(Event::Tried { url, fetched: ok })
                }
                Action::Settled { .. } => Some(Event::Ready),
                Action::Wait => {
                    busy -= 1;
                    Some(Event::Woke { busy })
                }
                Action::Resume => {
                    busy += 1;
                    Some(Event::Ready)
                }
                Action::Exit => {
                    assert_eq!(busy, 0);
                    assert_eq!(core.wake_up(0), Wake::Exit);
                    None
                }
            };
        }
        assert_eq!(busy, 0);
        fetched.sort();
        fetched.dedup();
        assert_eq!(
            fetched,
            vec![
                "https://example.com/",
                "https://example.com/a",
                "https://example.com/b",
                "https://example.com/c",
                "https://example.com/d",
            ]
        );
    }
}

#[test]
fn a_crawl_of_a_small_site_ends_with_every_page_checked_once() {
    let pages = [
        ("https://example.com/", vec!["a.html", "b.html", "https://example.org/"]),
        ("https://example.com/a.html", vec!["b.html", "/", "c/"]),
        ("https://example.com/b.html", vec!["a.html", "../x"]),
        ("https://example.com/c/", vec!["../a.html", "d.html"]),
        ("https://example.com/c/d.html", vec![]),
    ];
    let mut worker = worker_on(&["https://example.com/"]);
    worker.seed();
    let mut fetched = Vec::new();
    let mut busy = 1;
    loop {
        match worker.next_job() {
            Some(job) => {
                let page = pages.iter().find(|(url, _)| *url == job).unwrap();
                let found: Vec<String> = page.1.iter().map(|r| r.to_string()).collect();
                worker.enqueue(&link(&job), &found);
                assert_eq!(worker.settle(job.clone(), true), Outcome::Saved);
                fetched.push(job);
            }
            None => {
                busy -= 1;
                if worker.wake_up(busy) == Wake::Exit {
                    break;
                }
                busy += 1;
            }
        }
    }
    assert_eq!(
        fetched,
        vec![
            "https://example.com/",
            "https://example.com/a.html",
            "https://example.com/b.html",
            "https://example.com/c/",
            "https://example.com/c/d.html",
        ]
    );
    assert_eq!(busy, 0);
}
