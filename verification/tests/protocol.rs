use scraper_lib::Scraper;
use scraper_lib::commands::Command;
use scraper_lib::commands::handle_list;
use scraper_lib::commands::handle_print;
use scraper_lib::commands::handle_start;
use scraper_lib::commands::handle_stop;
use scraper_lib::commands::help_text;
use scraper_lib::commands::missing_url_reply;
use scraper_lib::commands::unknown_command_reply;
use scraper_lib::commands::parse_command;
use scraper_lib::manager::ScraperManager;

#[test]
fn parse_recognizes_each_verb() {
    match parse_command("start http://example.com\n") {
        Command::Start(url) => assert_eq!(url, "http://example.com"),
        _ => panic!("expected a start command"),
    }
    match parse_command("  stop   example.com  extra words\n") {
        Command::Stop(url) => assert_eq!(url, "example.com"),
        _ => panic!("expected a stop command"),
    }
    match parse_command("print example.com") {
        Command::Print(url) => assert_eq!(url, "example.com"),
        _ => panic!("expected a print command"),
    }
    assert!(matches!(parse_command("list\n"), Command::List));
    assert!(matches!(parse_command("help"), Command::Help));
    assert!(matches!(parse_command("exit"), Command::Quit));
    assert!(matches!(parse_command("quit\n"), Command::Quit));
}

#[test]
fn parse_flags_missing_urls_and_unknown_verbs() {
    assert!(matches!(parse_command("start\n"), Command::StartNoUrl));
    assert!(matches!(parse_command("stop  \n"), Command::StopNoUrl));
    assert!(matches!(parse_command("print"), Command::PrintNoUrl));
    assert!(matches!(parse_command("frobnicate x"), Command::Unknown));
    assert!(matches!(parse_command(""), Command::Unknown));
    assert!(matches!(parse_command("   \n"), Command::Unknown));
}

#[test]
fn start_answers_started_and_hands_out_one_key() {
    let mut manager = ScraperManager::new();
    let (reply, spawn) = handle_start(&mut manager, "example.com");
    assert_eq!(reply, "Started scraping");
    assert_eq!(spawn, Some(String::from("https://example.com/")));
    // The second start answers the same but spawns nothing.
    let (reply, spawn) = handle_start(&mut manager, "example.com");
    assert_eq!(reply, "Started scraping");
    assert_eq!(spawn, None);
}

#[test]
fn start_answers_missing_url_on_invalid_input() {
    let mut manager = ScraperManager::new();
    let (reply, spawn) = handle_start(&mut manager, "[");
    assert_eq!(reply, "Missing URL");
    assert_eq!(spawn, None);
    assert!(manager.list_tasks().is_empty());
}

#[test]
fn stop_answers_stopped_or_invalid() {
    let mut manager = ScraperManager::new();
    let (_, _) = handle_start(&mut manager, "example.com");
    assert_eq!(handle_stop(&mut manager, "example.com"), "Stopped scraping");
    // Stopping an unknown but well-formed URL still answers the same.
    assert_eq!(handle_stop(&mut manager, "other.com"), "Stopped scraping");
    assert_eq!(handle_stop(&mut manager, "["), "Invalid URL");
}

#[test]
fn print_reports_no_links_for_unknown_or_empty_jobs() {
    let mut manager = ScraperManager::new();
    let notice = vec![String::from("No links found or scraping not completed.")];
    // Unknown job.
    assert_eq!(handle_print(&manager, "example.com"), notice);
    // Started but still-empty job.
    let (_, _) = handle_start(&mut manager, "example.com");
    assert_eq!(handle_print(&manager, "example.com"), notice);
}

#[test]
fn print_answers_invalid_url() {
    let manager = ScraperManager::new();
    assert_eq!(handle_print(&manager, "["), vec![String::from("Invalid URL")]);
}

#[test]
fn list_prints_key_and_status_lines() {
    let mut manager = ScraperManager::new();
    assert!(handle_list(&manager).is_empty());
    let (_, _) = handle_start(&mut manager, "example.com");
    let (_, _) = handle_start(&mut manager, "other.com");
    let _ = handle_stop(&mut manager, "other.com");
    assert_eq!(
        handle_list(&manager),
        vec![
            String::from("https://example.com/: crawling"),
            String::from("https://other.com/: stopped"),
        ]
    );
}

#[test]
fn missing_url_and_unknown_replies_are_fixed() {
    assert_eq!(missing_url_reply(), "Missing URL");
    assert_eq!(unknown_command_reply(), "Unknown command");
}

#[test]
fn help_lists_the_commands() {
    let text = help_text();
    assert!(text.starts_with("Available commands:"));
    assert!(text.contains("start <url>"));
    assert!(text.contains("print <url>"));
}

#[test]
fn full_session_over_the_facade() {
    // Seed http://example.com; its page links to /a (twice, once with a
    // fragment), to a foreign domain, and to a mailto address. Exactly
    // one link is recorded and printed.
    let mut manager = ScraperManager::new();
    let (reply, spawn) = handle_start(&mut manager, "http://example.com");
    assert_eq!(reply, "Started scraping");
    let key = spawn.unwrap();
    let mut worker = Scraper::new(&key).unwrap();
    let body = "<a href=\"/a\">a</a><a href=\"http://example.com/a#frag\">b</a><a href=\"https://other.com/b\">c</a><a href=\"mailto:x@y.com\">d</a>";
    while let Some(page) = worker.next_to_fetch() {
        if manager.is_cancelled(&worker.key) {
            break;
        }
        let links = worker.process_page(&page, body);
        manager.record_links(&worker.key, &links);
    }
    manager.finish_job(&key);
    assert_eq!(
        handle_print(&manager, "http://example.com"),
        vec![String::from("http://example.com/a")]
    );
    assert_eq!(
        handle_list(&manager),
        vec![String::from("http://example.com/: finished")]
    );
}
