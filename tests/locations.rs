use canicapillus::pkuhelper;
use canicapillus::{
    Fetcher, FetchAttention, FetchFeed, FetchReply, FetchSearch, FetchSingle, FetcherError,
    HoleID, HoleSet, Location, Plan, ReplySet, RequestUrl, Swarm, SwarmError, API,
};

const BASE: &str = "https://example.org/api/";

fn render(url: &RequestUrl) -> String {
    url.to_url().unwrap().as_str().to_string()
}

#[test]
fn attention_single_page_defaults() {
    let located = <FetchAttention as Location<HoleSet>>::locate(&FetchAttention, RequestUrl::new(BASE));
    let url = <FetchAttention as Location<HoleSet>>::dispatch(&FetchAttention, located, None, 1, 1).unwrap();
    assert_eq!(render(&url), "https://example.org/api/follow?page=1&limit=25");
}

#[test]
fn feed_dispatch_writes_page_and_size() {
    let located = <FetchFeed as Location<HoleSet>>::locate(&FetchFeed, RequestUrl::new(BASE));
    let swarm = Swarm::Sequential { count: 20, page_size: 30 };
    let url = <FetchFeed as Location<HoleSet>>::dispatch(&FetchFeed, located, Some(&swarm), 12, 30).unwrap();
    assert_eq!(render(&url), "https://example.org/api/pku_hole?page=12&limit=30");
}

#[test]
fn reply_location_names_the_hole() {
    let fetch = FetchReply { hole_id: HoleID(3761702) };
    let located = <FetchReply as Location<ReplySet>>::locate(&fetch, RequestUrl::new(BASE));
    let url = <FetchReply as Location<ReplySet>>::dispatch(&fetch, located, None, 1, 1).unwrap();
    assert_eq!(render(&url), "https://example.org/api/pku_comment/3761702?page=1&limit=25");
    assert_eq!(<FetchReply as Location<ReplySet>>::default_swarm(&fetch), None);
}

#[test]
fn search_single_page_url() {
    let api = API::new(BASE, None, "token");
    let fetcher: Fetcher<API, HoleSet> = Fetcher::new(api);
    let search = FetchSearch { keyword: "X".to_string() };
    let plan = fetcher.fetch(&search).swarm(None).plan().unwrap();
    match plan {
        Plan::Single(url) => assert_eq!(
            render(&url),
            "https://example.org/api/?action=search&keywords=X&pagesize=50&page=1"
        ),
        _ => panic!("expected a single page"),
    }
}

#[test]
fn search_encodes_keyword_and_pages() {
    let search = FetchSearch { keyword: "依托 x&y".to_string() };
    let located = <FetchSearch as Location<HoleSet>>::locate(&search, RequestUrl::new(BASE));
    let swarm = Swarm::Concurrent { count: 3, page_size: 50 };
    let url = <FetchSearch as Location<HoleSet>>::dispatch(&search, located, Some(&swarm), 3, 50).unwrap();
    assert_eq!(
        render(&url),
        "https://example.org/api/?action=search&keywords=%E4%BE%9D%E6%89%98+x%26y&pagesize=50&page=3"
    );
}

#[test]
fn default_swarms() {
    assert_eq!(
        <FetchAttention as Location<HoleSet>>::default_swarm(&FetchAttention),
        Some(Swarm::Concurrent { count: 4, page_size: 30 })
    );
    assert_eq!(
        <FetchFeed as Location<HoleSet>>::default_swarm(&FetchFeed),
        Some(Swarm::Concurrent { count: 4, page_size: 30 })
    );
    let search = FetchSearch { keyword: "k".to_string() };
    assert_eq!(
        <FetchSearch as Location<HoleSet>>::default_swarm(&search),
        Some(Swarm::Concurrent { count: 3, page_size: 50 })
    );
    let single = FetchSingle { id: HoleID(1) };
    assert_eq!(<FetchSingle as Location<HoleSet>>::default_swarm(&single), None);
}

#[test]
fn single_refuses_every_swarm() {
    let single = FetchSingle { id: HoleID(472865) };
    for swarm in [
        Swarm::Concurrent { count: 3, page_size: 10 },
        Swarm::Sequential { count: 1, page_size: 1 },
    ] {
        for page in [1usize, 2, 100] {
            let url = RequestUrl::new(BASE);
            let r = <FetchSingle as Location<HoleSet>>::dispatch(&single, url, Some(&swarm), page, 10);
            assert_eq!(r, Err(SwarmError::Unsupported));
        }
    }
}

#[test]
fn single_without_swarm_keeps_the_url() {
    let single = FetchSingle { id: HoleID(472865) };
    let located = <FetchSingle as Location<HoleSet>>::locate(&single, RequestUrl::new(BASE));
    let r = <FetchSingle as Location<HoleSet>>::dispatch(&single, located.clone(), None, 1, 1);
    assert_eq!(r, Ok(located.clone()));
    assert_eq!(render(&located), "https://example.org/api/pku/472865");
}

#[test]
fn api_parameters_come_first() {
    let params: [(&str, &str); 2] = [("PKUHelperAPI", "3.0"), ("jsapiver", "201027113050-459074")];
    let api = API::new("https://example.org/api.php", Some(&params), "tok");
    assert_eq!(api.user_token(), "tok");
    let fetcher: Fetcher<API, HoleSet> = Fetcher::new(api);
    let search = FetchSearch { keyword: "k".to_string() };
    match fetcher.fetch(&search).swarm(None).plan().unwrap() {
        Plan::Single(url) => assert_eq!(
            render(&url),
            "https://example.org/api.php?PKUHelperAPI=3.0&jsapiver=201027113050-459074&action=search&keywords=k&pagesize=50&page=1"
        ),
        _ => panic!("expected a single page"),
    }
}

#[test]
fn malformed_base_is_reported() {
    let url = RequestUrl::new("not a url").join("follow");
    assert!(url.to_url().is_err());
    let api = API::new("not a url", None, "tok");
    let fetcher: Fetcher<API, HoleSet> = Fetcher::new(api);
    match fetcher.fetch(&FetchFeed).swarm(None).plan().unwrap() {
        Plan::Single(url) => {
            let e = url.to_url().unwrap_err();
            let err = FetcherError::MalformedUrl(e);
            assert!(matches!(err, FetcherError::MalformedUrl(_)));
        }
        _ => panic!("expected a single page"),
    }
}

#[test]
fn pkuhelper_locations() {
    let params: [(&str, &str); 2] = [("PKUHelperAPI", "3.0"), ("jsapiver", "201027113050-459074")];
    let api = API::new(pkuhelper::DEFAULT_API_BASE, Some(&params), "tok");
    let fetcher: Fetcher<API, HoleSet> = Fetcher::new(api);
    let exec = fetcher.fetch(&pkuhelper::FetchFeed);
    assert_eq!(exec.swarm, Some(Swarm::Concurrent { count: 4, page_size: 30 }));
    match exec.swarm(Some(Swarm::Sequential { count: 2, page_size: 30 })).plan().unwrap() {
        Plan::Sequential(urls) => assert_eq!(
            render(&urls[1]),
            "https://pkuhelper.pku.edu.cn/services/pkuhole/api.php?PKUHelperAPI=3.0&jsapiver=201027113050-459074&action=getlist&p=2"
        ),
        _ => panic!("expected a sequential plan"),
    }
    let r = fetcher.fetch(&pkuhelper::FetchAttention).swarm(Some(Swarm::Sequential { count: 2, page_size: 30 })).plan();
    assert!(matches!(r, Err(FetcherError::SwarmFail(SwarmError::Unsupported))));
    let r = fetcher.fetch(&pkuhelper::FetchAttention).swarm(Some(Swarm::Concurrent { count: 2, page_size: 30 })).plan();
    assert!(matches!(r, Err(FetcherError::SwarmFail(SwarmError::Unsupported))));
    match fetcher.fetch(&pkuhelper::FetchAttention).plan().unwrap() {
        Plan::Single(url) => assert_eq!(
            render(&url),
            "https://pkuhelper.pku.edu.cn/services/pkuhole/api.php?PKUHelperAPI=3.0&jsapiver=201027113050-459074&action=getattention"
        ),
        _ => panic!("expected a single page"),
    }
}
