use crawler::crawl::{Action, CrawlConfig, Crawler, Event, ExpansionMode, ScopeMode};
use crawler::links::LinkError;
use crawler::resolve::FragmentPolicy;

fn config(seed: &str, expansion: ExpansionMode) -> CrawlConfig {
    CrawlConfig {
        seed_url: seed.to_string(),
        scope: ScopeMode::SeedPrefix,
        expansion,
        exclusion_class: Some("facet_link".to_string()),
        fragment_policy: FragmentPolicy::Keep,
    }
}

fn page(links: &[&str]) -> String {
    let mut s = String::from("<html><body>");
    for l in links {
        s.push_str(&format!("<a href=\"{}\">x</a>", l));
    }
    s.push_str("</body></html>");
    s
}

fn probe_url(a: &Action) -> Option<String> {
    match a {
        Action::Probe(u) => Some(u.clone()),
        _ => None,
    }
}

fn assert_frontier_within_visited(c: &Crawler) {
    for u in c.frontier() {
        assert!(c.visited().contains(u));
    }
    let mut seen = c.visited().clone();
    seen.sort();
    seen.dedup();
    assert_eq!(seen.len(), c.visited().len());
}

/// Drives a crawl where every probe succeeds and every page has the links
/// given by `site`; returns the crawler and the URLs fetched.
fn run(mut c: Crawler, site: &dyn Fn(&str) -> Vec<&'static str>) -> (Crawler, Vec<String>) {
    let mut fetched = Vec::new();
    let mut action = c.step(Event::Start);
    let mut steps = 0;
    loop {
        assert_frontier_within_visited(&c);
        steps += 1;
        assert!(steps < 1000);
        action = match action {
            Action::Probe(_) => c.step(Event::Probed(true)),
            Action::Fetch(u) => {
                fetched.push(u.clone());
                c.step(Event::Fetched(Some(page(&site(&u)))))
            }
            Action::Done => break,
        };
    }
    (c, fetched)
}

fn site_abc(u: &str) -> Vec<&'static str> {
    match u {
        "https://x.com" => vec!["https://x.com/b", "https://x.com/c"],
        "https://x.com/b" => vec!["https://x.com/b", "https://x.com/d"],
        _ => vec![],
    }
}

fn sorted(v: &[String]) -> Vec<String> {
    let mut v = v.to_vec();
    v.sort();
    v
}

#[test]
fn seed_only_expands_one_page() {
    let c = Crawler::new(config("https://x.com", ExpansionMode::SeedOnly)).unwrap();
    let (c, fetched) = run(c, &site_abc);
    assert_eq!(fetched, vec!["https://x.com".to_string()]);
    assert_eq!(
        sorted(c.visited()),
        vec!["https://x.com".to_string(), "https://x.com/b".to_string(), "https://x.com/c".to_string()]
    );
    assert!(c.frontier().is_empty());
    assert_eq!(c.expanded_count(), 1);
    assert!(c.is_finished());
}

#[test]
fn every_page_expands_all_visited() {
    let c = Crawler::new(config("https://x.com", ExpansionMode::EveryPage)).unwrap();
    let (c, fetched) = run(c, &site_abc);
    assert_eq!(
        sorted(&fetched),
        vec![
            "https://x.com".to_string(),
            "https://x.com/b".to_string(),
            "https://x.com/c".to_string(),
            "https://x.com/d".to_string()
        ]
    );
    assert_eq!(c.visited().len(), 4);
    assert_eq!(c.expanded_count(), 4);
}

#[test]
fn failed_seed_probe_ends_crawl() {
    let mut c = Crawler::new(config("https://x.com", ExpansionMode::EveryPage)).unwrap();
    let a = c.step(Event::Start);
    assert_eq!(probe_url(&a), Some("https://x.com".to_string()));
    let a = c.step(Event::Probed(false));
    assert!(matches!(a, Action::Done));
    assert_eq!(c.visited(), &vec!["https://x.com".to_string()]);
    assert!(c.frontier().is_empty());
    assert_eq!(c.expanded_count(), 0);
}

#[test]
fn scope_filter_queues_only_seed_prefixed_links() {
    let mut c = Crawler::new(config("https://x.com", ExpansionMode::SeedOnly)).unwrap();
    c.step(Event::Start);
    let a = c.step(Event::Probed(true));
    assert!(matches!(a, Action::Fetch(ref u) if u == "https://x.com"));
    let a = c.step(Event::Fetched(Some(page(&["https://x.com/a", "https://other.com/a"]))));
    assert_eq!(
        c.visited(),
        &vec!["https://x.com".to_string(), "https://x.com/a".to_string(), "https://other.com/a".to_string()]
    );
    assert_eq!(probe_url(&a), Some("https://x.com/a".to_string()));
    assert!(c.frontier().is_empty());
    let a = c.step(Event::Probed(true));
    assert!(matches!(a, Action::Done));
}

#[test]
fn everything_scope_queues_foreign_links() {
    let mut cfg = config("https://x.com", ExpansionMode::SeedOnly);
    cfg.scope = ScopeMode::Everything;
    let mut c = Crawler::new(cfg).unwrap();
    c.step(Event::Start);
    c.step(Event::Probed(true));
    c.step(Event::Fetched(Some(page(&["https://x.com/a", "https://other.com/a"]))));
    assert_eq!(c.frontier(), &vec!["https://x.com/a".to_string()]);
}

#[test]
fn rediscovered_links_are_not_recorded_again() {
    let mut c = Crawler::new(config("https://x.com/", ExpansionMode::EveryPage)).unwrap();
    c.step(Event::Start);
    c.step(Event::Probed(true));
    c.step(Event::Fetched(Some(page(&["https://x.com/a"]))));
    c.step(Event::Probed(true));
    let before = c.visited().clone();
    let a = c.step(Event::Fetched(Some(page(&["https://x.com/", "https://x.com/a", "/a"]))));
    assert_eq!(c.visited(), &before);
    assert!(matches!(a, Action::Done));
}

#[test]
fn failed_fetch_contributes_no_links() {
    let mut c = Crawler::new(config("https://x.com", ExpansionMode::SeedOnly)).unwrap();
    c.step(Event::Start);
    c.step(Event::Probed(true));
    let a = c.step(Event::Fetched(None));
    assert!(matches!(a, Action::Done));
    assert_eq!(c.visited().len(), 1);
    assert_eq!(c.expanded_count(), 0);
}

#[test]
fn unexpected_event_repeats_pending_action() {
    let mut c = Crawler::new(config("https://x.com", ExpansionMode::SeedOnly)).unwrap();
    c.step(Event::Start);
    let a = c.step(Event::Fetched(None));
    assert_eq!(probe_url(&a), Some("https://x.com".to_string()));
    let a = c.step(Event::Probed(true));
    assert!(matches!(a, Action::Fetch(_)));
    let a = c.step(Event::Probed(true));
    assert!(matches!(a, Action::Fetch(_)));
}

#[test]
fn fragment_links_are_distinct_under_keep() {
    let mut c = Crawler::new(config("https://x.com/p", ExpansionMode::SeedOnly)).unwrap();
    c.step(Event::Start);
    c.step(Event::Probed(true));
    c.step(Event::Fetched(Some(page(&["#section"]))));
    assert!(c.visited().contains(&"https://x.com/p#section".to_string()));
}

#[test]
fn invalid_exclusion_refused_at_start() {
    let mut cfg = config("https://x.com", ExpansionMode::SeedOnly);
    cfg.exclusion_class = Some("1bad".to_string());
    assert!(matches!(Crawler::new(cfg), Err(LinkError::InvalidSelector)));
}
