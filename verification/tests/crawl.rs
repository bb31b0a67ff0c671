use scraper_lib::Scraper;
use scraper_lib::manager::ScraperManager;
use scraper_lib::manager::Status;

const SCENARIO_BODY: &str = "<html><body><a href=\"/a\">first</a><a href=\"http://example.com/a#frag\">same again</a><a href=\"https://other.com/b\">foreign</a><a href=\"mailto:x@y.com\">mail</a></body></html>";

#[test]
fn worker_seeds_frontier_with_the_key() {
    let worker = Scraper::new("http://example.com").unwrap();
    assert_eq!(worker.key, "http://example.com/");
    assert_eq!(worker.base_domain, "example.com");
    assert!(worker.visited.is_empty());
}

#[test]
fn worker_rejects_invalid_seed() {
    assert!(Scraper::new("[").is_none());
    // An address-literal host has no domain, so the job fails at once.
    assert!(Scraper::new("http://127.0.0.1/").is_none());
}

#[test]
fn worker_never_fetches_twice() {
    let mut worker = Scraper::new("http://example.com").unwrap();
    let first = worker.next_to_fetch().unwrap();
    assert_eq!(first, "http://example.com/");
    // A page linking back to the seed and to itself requeues nothing new.
    let body = "<a href=\"http://example.com/\">seed</a><a href=\"/a\">a</a>";
    worker.process_page(&first, body);
    let second = worker.next_to_fetch().unwrap();
    assert_eq!(second, "http://example.com/a");
    worker.process_page(&second, body);
    assert_eq!(worker.next_to_fetch(), None);
}

#[test]
fn page_links_are_domain_scoped() {
    let mut worker = Scraper::new("http://example.com").unwrap();
    let page = worker.next_to_fetch().unwrap();
    let links = worker.process_page(&page, SCENARIO_BODY);
    for link in &links {
        assert!(!link.starts_with('#'));
        assert!(!link.starts_with("mailto:"));
        assert!(link.contains("example.com"));
    }
    assert!(!links.iter().any(|l| l.contains("other.com")));
}

#[test]
fn end_to_end_scenario_records_one_link() {
    // Seed http://example.com; the page links to /a, to the same target
    // with a fragment, to a foreign domain, and to a mailto address.
    let mut manager = ScraperManager::new();
    let mut worker = Scraper::new("http://example.com").unwrap();
    assert!(manager.start_scraping(worker.key.clone()));
    let page = worker.next_to_fetch().unwrap();
    let links = worker.process_page(&page, SCENARIO_BODY);
    manager.record_links(&worker.key, &links);
    let recorded = manager.get_links("http://example.com/").unwrap();
    assert_eq!(recorded, vec![String::from("http://example.com/a")]);
}

#[test]
fn frontier_is_fetched_in_fifo_order() {
    let mut worker = Scraper::new("http://example.com").unwrap();
    let page = worker.next_to_fetch().unwrap();
    worker.process_page(&page, "<a href=\"/b\">b</a><a href=\"/a\">a</a>");
    assert_eq!(worker.next_to_fetch().unwrap(), "http://example.com/b");
    assert_eq!(worker.next_to_fetch().unwrap(), "http://example.com/a");
    assert_eq!(worker.next_to_fetch(), None);
}

#[test]
fn frontier_entries_that_do_not_normalize_are_skipped() {
    let mut worker = Scraper::new("http://example.com").unwrap();
    // A frontier entry that fails to normalize is passed over silently.
    worker.frontier.push_front(String::from("["));
    let first = worker.next_to_fetch().unwrap();
    assert_eq!(first, "http://example.com/");
    assert_eq!(worker.visited, vec![String::from("http://example.com/")]);
}

#[test]
fn empty_page_contributes_nothing() {
    let mut worker = Scraper::new("http://example.com").unwrap();
    let page = worker.next_to_fetch().unwrap();
    let links = worker.process_page(&page, "<html><body>plain text</body></html>");
    assert!(links.is_empty());
    assert_eq!(worker.next_to_fetch(), None);
}

#[test]
fn drained_worker_finishes_job() {
    let mut manager = ScraperManager::new();
    let mut worker = Scraper::new("http://example.com").unwrap();
    assert!(manager.start_scraping(worker.key.clone()));
    let page = worker.next_to_fetch().unwrap();
    worker.process_page(&page, "<p>no links</p>");
    assert_eq!(worker.next_to_fetch(), None);
    manager.finish_job(&worker.key);
    let tasks = manager.list_tasks();
    assert_eq!(tasks.len(), 1);
    assert_eq!(tasks[0].1, Status::Finished);
}
