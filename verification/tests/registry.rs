use scraper_lib::manager::ScraperManager;
use scraper_lib::manager::Status;

#[test]
fn new_registry_is_empty() {
    let manager = ScraperManager::new();
    assert!(manager.list_tasks().is_empty());
    assert_eq!(manager.get_links("http://example.com/"), None);
}

#[test]
fn start_twice_is_idempotent() {
    // Two starts in quick succession yield exactly one worker to spawn.
    let mut manager = ScraperManager::new();
    assert!(manager.start_scraping(String::from("http://example.com/")));
    assert!(!manager.start_scraping(String::from("http://example.com/")));
    let tasks = manager.list_tasks();
    assert_eq!(tasks.len(), 1);
    assert_eq!(tasks[0].0, "http://example.com/");
    assert_eq!(tasks[0].1, Status::Crawling);
}

#[test]
fn start_revives_a_finished_job() {
    let mut manager = ScraperManager::new();
    assert!(manager.start_scraping(String::from("http://example.com/")));
    manager.finish_job("http://example.com/");
    assert!(manager.start_scraping(String::from("http://example.com/")));
    assert_eq!(manager.list_tasks(), vec![(String::from("http://example.com/"), Status::Crawling)]);
}

#[test]
fn stop_sets_status_stopped() {
    let mut manager = ScraperManager::new();
    assert!(manager.start_scraping(String::from("http://example.com/")));
    assert!(manager.stop_scraping("http://example.com/"));
    assert_eq!(manager.list_tasks(), vec![(String::from("http://example.com/"), Status::Stopped)]);
}

#[test]
fn stop_unknown_job_reports_none_existed() {
    let mut manager = ScraperManager::new();
    assert!(!manager.stop_scraping("http://example.com/"));
    assert!(manager.list_tasks().is_empty());
}

#[test]
fn stop_does_not_unfinish_a_job() {
    let mut manager = ScraperManager::new();
    assert!(manager.start_scraping(String::from("http://example.com/")));
    manager.finish_job("http://example.com/");
    assert!(manager.stop_scraping("http://example.com/"));
    assert_eq!(manager.list_tasks()[0].1, Status::Finished);
}

#[test]
fn no_links_append_after_stop() {
    // Cancellation quiesces the entry: later records change nothing.
    let mut manager = ScraperManager::new();
    let key = String::from("http://example.com/");
    assert!(manager.start_scraping(key.clone()));
    manager.record_links(&key, &vec![String::from("http://example.com/a")]);
    assert!(manager.stop_scraping(&key));
    manager.record_links(&key, &vec![String::from("http://example.com/b")]);
    assert_eq!(
        manager.get_links(&key),
        Some(vec![String::from("http://example.com/a")])
    );
}

#[test]
fn recorded_links_stay_deduplicated() {
    let mut manager = ScraperManager::new();
    let key = String::from("http://example.com/");
    assert!(manager.start_scraping(key.clone()));
    let a = String::from("http://example.com/a");
    let b = String::from("http://example.com/b");
    manager.record_links(&key, &vec![a.clone(), b.clone(), a.clone()]);
    manager.record_links(&key, &vec![b.clone(), a.clone()]);
    assert_eq!(manager.get_links(&key), Some(vec![a, b]));
}

#[test]
fn cancellation_flag_follows_stop_and_restart() {
    let mut manager = ScraperManager::new();
    let key = String::from("http://example.com/");
    assert!(manager.start_scraping(key.clone()));
    assert!(!manager.is_cancelled(&key));
    assert!(manager.stop_scraping(&key));
    assert!(manager.is_cancelled(&key));
    // Reviving the job lowers the flag again.
    assert!(manager.start_scraping(key.clone()));
    assert!(!manager.is_cancelled(&key));
}

#[test]
fn links_survive_a_restart() {
    let mut manager = ScraperManager::new();
    let key = String::from("http://example.com/");
    assert!(manager.start_scraping(key.clone()));
    manager.record_links(&key, &vec![String::from("http://example.com/a")]);
    manager.finish_job(&key);
    assert!(manager.start_scraping(key.clone()));
    assert_eq!(
        manager.get_links(&key),
        Some(vec![String::from("http://example.com/a")])
    );
}

#[test]
fn status_words_match_protocol() {
    assert_eq!(Status::Crawling.text(), "crawling");
    assert_eq!(Status::Finished.text(), "finished");
    assert_eq!(Status::Stopped.text(), "stopped");
}
