use canicapillus::{
    pool_size, Collector, DefaultFetcherClientBuilder, Fetcher, FetcherError, FetchFeed,
    FetchSingle, FromPage, HoleID, HoleKind, HoleSet, OneOrMany, Plan, RawHole, RawHoleID,
    RawHolePage, RequestUrl, Swarm, SwarmError, API, MAX_POOL_SIZE,
};

const BASE: &str = "https://example.org/api/";

fn render(url: &RequestUrl) -> String {
    url.to_url().unwrap().as_str().to_string()
}

fn holes(ids: &[usize]) -> HoleSet {
    let data = ids
        .iter()
        .map(|&id| RawHole {
            id: RawHoleID(id),
            text: String::new(),
            kind: HoleKind::Text,
            timestamp: 0,
            reply: 0,
            likenum: 0,
            tag: None,
        })
        .collect();
    HoleSet::from_page(RawHolePage { code: 0, count: None, data: OneOrMany::Vec(data), timestamp: None }, 0)
}

fn ids(s: HoleSet) -> Vec<usize> {
    s.into_entries().into_iter().map(|e| e.entry.id.0).collect()
}

fn feed_fetcher() -> Fetcher<API, HoleSet> {
    Fetcher::new(API::new(BASE, None, "token"))
}

#[test]
fn pool_is_capped_at_sixteen() {
    assert_eq!(MAX_POOL_SIZE, 16);
    assert_eq!(pool_size(0), 0);
    assert_eq!(pool_size(10), 10);
    assert_eq!(pool_size(16), 16);
    assert_eq!(pool_size(50), 16);
    assert_eq!(pool_size(usize::MAX), 16);
}

#[test]
fn fetch_starts_from_the_default_swarm() {
    let fetcher = feed_fetcher();
    let exec = fetcher.fetch(&FetchFeed);
    assert_eq!(exec.swarm, Some(Swarm::Concurrent { count: 4, page_size: 30 }));
    assert_eq!(exec.page_limit, None);
    let exec = exec.swarm(None).page_limit(Some(3));
    assert_eq!(exec.swarm, None);
    assert_eq!(exec.page_limit, Some(3));
}

#[test]
fn sequential_run_skips_the_failed_page() {
    let fetcher = feed_fetcher();
    let plan = fetcher
        .fetch(&FetchFeed)
        .swarm(Some(Swarm::Sequential { count: 3, page_size: 10 }))
        .plan()
        .unwrap();
    let urls = match plan {
        Plan::Sequential(urls) => urls,
        _ => panic!("expected a sequential plan"),
    };
    let rendered: Vec<String> = urls.iter().map(render).collect();
    assert_eq!(
        rendered,
        vec![
            "https://example.org/api/pku_hole?page=1&limit=10",
            "https://example.org/api/pku_hole?page=2&limit=10",
            "https://example.org/api/pku_hole?page=3&limit=10",
        ]
    );
    let outcomes: Vec<Result<HoleSet, FetcherError>> =
        vec![Ok(holes(&[1, 2])), Err(FetcherError::TransportFail), Ok(holes(&[5, 6]))];
    let mut collector: Collector<HoleSet> = Collector::new(urls.len());
    for outcome in outcomes {
        assert!(!collector.is_done());
        collector = collector.accept(outcome).unwrap();
    }
    assert!(collector.is_done());
    assert_eq!(ids(collector.finish()), vec![1, 2, 5, 6]);
}

#[test]
fn failed_parse_is_dropped_too() {
    let mut collector: Collector<HoleSet> = Collector::new(2);
    collector = collector.accept(Err(FetcherError::ParseResourceFail(canicapillus::ParseResourceError))).unwrap();
    collector = collector.accept(Ok(holes(&[3]))).unwrap();
    assert_eq!(ids(collector.finish()), vec![3]);
}

#[test]
fn concurrent_plan_queues_pages_then_stops() {
    let fetcher = feed_fetcher();
    let plan = fetcher
        .fetch(&FetchFeed)
        .swarm(Some(Swarm::Concurrent { count: 10, page_size: 5 }))
        .plan()
        .unwrap();
    match plan {
        Plan::Concurrent { jobs, workers, pages } => {
            assert_eq!(workers, 10);
            assert_eq!(pages, 10);
            assert_eq!(jobs.len(), 20);
            assert_eq!(render(jobs[0].as_ref().unwrap()), "https://example.org/api/pku_hole?page=1&limit=5");
            assert_eq!(render(jobs[9].as_ref().unwrap()), "https://example.org/api/pku_hole?page=10&limit=5");
            assert!(jobs[10..].iter().all(|j| j.is_none()));
        }
        _ => panic!("expected a concurrent plan"),
    }
}

#[test]
fn concurrent_pool_capped_and_duplicates_collapse() {
    let fetcher = feed_fetcher();
    let plan = fetcher
        .fetch(&FetchFeed)
        .swarm(Some(Swarm::Concurrent { count: 50, page_size: 5 }))
        .plan()
        .unwrap();
    match plan {
        Plan::Concurrent { jobs, workers, pages } => {
            assert_eq!(workers, 16);
            assert_eq!(pages, 50);
            assert_eq!(jobs.len(), 66);
        }
        _ => panic!("expected a concurrent plan"),
    }
    let mut collector: Collector<HoleSet> = Collector::new(10);
    for page in 0..10usize {
        let first = page * 3;
        collector = collector.accept(Ok(holes(&[first, first + 1, first + 2, first + 3, first + 4]))).unwrap();
    }
    let merged = collector.finish();
    assert_eq!(merged.len(), 32);
}

#[test]
fn cancelled_collector_keeps_what_was_merged() {
    let mut collector: Collector<HoleSet> = Collector::new(3);
    collector = collector.accept(Ok(holes(&[1]))).unwrap();
    collector = collector.cancel();
    assert!(collector.is_done());
    collector = collector.accept(Ok(holes(&[2]))).unwrap();
    assert_eq!(ids(collector.finish()), vec![1]);
}

#[test]
fn page_limit_refuses_sequential_and_skips_concurrent() {
    let fetcher = feed_fetcher();
    let r = fetcher
        .fetch(&FetchFeed)
        .swarm(Some(Swarm::Sequential { count: 5, page_size: 10 }))
        .page_limit(Some(3))
        .plan();
    assert!(matches!(r, Err(FetcherError::SwarmFail(SwarmError::PolicyRejected))));
    let plan = fetcher
        .fetch(&FetchFeed)
        .swarm(Some(Swarm::Concurrent { count: 5, page_size: 10 }))
        .page_limit(Some(3))
        .plan()
        .unwrap();
    match plan {
        Plan::Concurrent { jobs, workers, pages } => {
            assert_eq!(pages, 3);
            assert_eq!(workers, 5);
            assert_eq!(jobs.len(), 8);
        }
        _ => panic!("expected a concurrent plan"),
    }
}

#[test]
fn single_location_under_swarms() {
    let fetcher = feed_fetcher();
    let single = FetchSingle { id: HoleID(472865) };
    let r = fetcher.fetch(&single).swarm(Some(Swarm::Sequential { count: 2, page_size: 10 })).plan();
    assert!(matches!(r, Err(FetcherError::SwarmFail(SwarmError::Unsupported))));
    let r = fetcher.fetch(&single).swarm(Some(Swarm::Concurrent { count: 2, page_size: 10 })).plan();
    assert!(matches!(r, Err(FetcherError::SwarmFail(SwarmError::Unsupported))));
    let r = fetcher
        .fetch(&single)
        .swarm(Some(Swarm::Concurrent { count: 2, page_size: 10 }))
        .page_limit(Some(0))
        .plan();
    assert!(matches!(r, Err(FetcherError::SwarmFail(SwarmError::Unsupported))));
    match fetcher.fetch(&single).plan().unwrap() {
        Plan::Single(url) => assert_eq!(render(&url), "https://example.org/api/pku/472865"),
        _ => panic!("expected a single page"),
    }
}

#[test]
fn default_client_headers() {
    let headers = DefaultFetcherClientBuilder.headers();
    assert_eq!(headers[0], ("referer", "https://pkuhelper.pku.edu.cn/hole/"));
    assert_eq!(headers[1].0, "user-agent");
    assert!(headers[1].1.starts_with("Mozilla/5.0"));
}

#[test]
fn search_page_is_idempotent_when_merged() {
    let once = holes(&[10, 11, 12]);
    assert_eq!(once.len(), 3);
    let twice = canicapillus::MergeResource::merge(holes(&[10, 11, 12]), holes(&[10, 11, 12])).unwrap();
    assert_eq!(ids(twice), vec![10, 11, 12]);
}
