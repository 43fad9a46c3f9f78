use rpc_load_balancer::handler::BodyRead;
use rpc_load_balancer::handler::MAX_BODY;
use rpc_load_balancer::handler::ResponseBody;
use rpc_load_balancer::handler::body_read_failure_response;
use rpc_load_balancer::handler::content_type;
use rpc_load_balancer::handler::handle_request;
use rpc_load_balancer::handler::invalid_chain_response;
use rpc_load_balancer::handler::no_upstream_response;
use rpc_load_balancer::handler::upstream_response;
use rpc_load_balancer::handler::within_body_limit;
use rpc_load_balancer::registry::Chains;
use rpc_load_balancer::registry::Config;
use rpc_load_balancer::registry::ConfigError;
use rpc_load_balancer::registry::LoadBalancer;
use rpc_load_balancer::registry::initialize_load_balancer;
use rpc_load_balancer::registry::lookup_chain;
use rpc_load_balancer::retry::BASE_DELAY_MS;
use rpc_load_balancer::retry::MAX_RETRIES;
use rpc_load_balancer::retry::RetryDecision;
use rpc_load_balancer::retry::SendOutcome;
use rpc_load_balancer::retry::backoff_delay_ms;
use rpc_load_balancer::retry::evaluate_attempt;
use rpc_load_balancer::retry::is_success_status;
use rpc_load_balancer::round_robin::RoundRobin;
use rpc_load_balancer::round_robin::RpcServer;

fn create_test_servers() -> Vec<RpcServer> {
    vec![
        RpcServer {
            url: "https://sepolia.drpc.org/".to_string(),
            request_limit: 1,
            current_limit: 1,
        },
        RpcServer {
            url: "https://polygon-rpc.com".to_string(),
            request_limit: 1,
            current_limit: 1,
        },
    ]
}

fn eth_config(servers: Vec<RpcServer>) -> Config {
    Config { chains: vec![("eth".to_string(), Chains { rpc_urls: servers })] }
}

fn text_of(body: &ResponseBody) -> &str {
    match body {
        ResponseBody::Text(t) => t.as_str(),
        ResponseBody::Bytes(_) => panic!("expected a text body"),
    }
}

fn bytes_of(body: &ResponseBody) -> &[u8] {
    match body {
        ResponseBody::Bytes(b) => b.as_slice(),
        ResponseBody::Text(_) => panic!("expected a bytes body"),
    }
}

#[test]
fn test_new_round_robin() {
    let servers = create_test_servers();
    let round_robin = RoundRobin::new(servers);
    let expected = create_test_servers();

    assert_eq!(round_robin.urls.len(), expected.len());
    assert_eq!(round_robin.index, 0);

    for (i, server) in round_robin.urls.iter().enumerate() {
        assert_eq!(server.url, expected[i].url);
        assert_eq!(server.request_limit, expected[i].request_limit);
        assert_eq!(server.current_limit, expected[i].current_limit);
    }
}

#[test]
fn test_get_next() {
    let servers = create_test_servers();
    let mut round_robin = RoundRobin::new(servers);

    let url1 = round_robin.get_next();
    assert_eq!(url1, Some("https://sepolia.drpc.org/".to_string()));
    assert_eq!(round_robin.index, 0);

    let url2 = round_robin.get_next();
    assert_eq!(url2, Some("https://polygon-rpc.com".to_string()));
    assert_eq!(round_robin.index, 1);

    let url3 = round_robin.get_next();
    assert_eq!(url3, None);
    assert_eq!(round_robin.index, 1);

    let url4 = round_robin.get_next();
    assert_eq!(url4, None);
    assert_eq!(round_robin.index, 1);
}

#[test]
fn test_sticky_on_success() {
    // A healthy upstream keeps serving until its budget is drained.
    let servers = vec![
        RpcServer { url: "https://a/".to_string(), current_limit: 2, request_limit: 2 },
        RpcServer { url: "https://b/".to_string(), current_limit: 2, request_limit: 2 },
    ];
    let mut rr = RoundRobin::new(servers);
    assert_eq!(rr.get_next(), Some("https://a/".to_string()));
    assert_eq!(rr.get_next(), Some("https://a/".to_string()));
    assert_eq!(rr.index, 0);
    assert_eq!(rr.get_next(), Some("https://b/".to_string()));
    assert_eq!(rr.index, 1);
}

#[test]
fn test_rotate_advances_cursor_by_two() {
    // Two successive rotates with no pick advance the cursor by two mod N.
    let servers = vec![
        RpcServer { url: "https://a/".to_string(), current_limit: 1, request_limit: 1 },
        RpcServer { url: "https://b/".to_string(), current_limit: 1, request_limit: 1 },
        RpcServer { url: "https://c/".to_string(), current_limit: 1, request_limit: 1 },
    ];
    let mut rr = RoundRobin::new(servers);
    rr.rotate();
    rr.rotate();
    assert_eq!(rr.index, 2);
    rr.rotate();
    rr.rotate();
    assert_eq!(rr.index, (2 + 2) % 3);
}

#[test]
fn test_refill_restores_quotas() {
    let servers = vec![
        RpcServer { url: "https://a/".to_string(), current_limit: 0, request_limit: 3 },
        RpcServer { url: "https://b/".to_string(), current_limit: 1, request_limit: 5 },
    ];
    let mut rr = RoundRobin::new(servers);
    rr.refill_limits();
    assert_eq!(rr.urls[0].current_limit, 3);
    assert_eq!(rr.urls[1].current_limit, 5);
    assert_eq!(rr.index, 0);
}

#[test]
fn test_retry_connection_skips_current() {
    let servers = create_test_servers();
    let mut rr = RoundRobin::new(servers);
    // Skips the first upstream even though it still has a token.
    let url = rr.retry_connection();
    assert_eq!(url, Some("https://polygon-rpc.com".to_string()));
    assert_eq!(rr.urls[0].current_limit, 1);
    assert_eq!(rr.urls[1].current_limit, 0);
}

#[test]
fn test_equal_quota_fairness() {
    // Two upstreams with a budget of two each: four picks drain everything
    // and return each upstream exactly twice.
    let servers = vec![
        RpcServer { url: "https://a/".to_string(), current_limit: 2, request_limit: 2 },
        RpcServer { url: "https://b/".to_string(), current_limit: 2, request_limit: 2 },
    ];
    let mut rr = RoundRobin::new(servers);
    let mut a_count = 0;
    let mut b_count = 0;
    for _ in 0..4 {
        match rr.get_next() {
            Some(url) => {
                if url == "https://a/" {
                    a_count += 1;
                } else if url == "https://b/" {
                    b_count += 1;
                } else {
                    panic!("unexpected url");
                }
            },
            None => panic!("pick failed with budget left"),
        }
    }
    assert_eq!(a_count, 2);
    assert_eq!(b_count, 2);
    assert_eq!(rr.urls[0].current_limit, 0);
    assert_eq!(rr.urls[1].current_limit, 0);
    assert_eq!(rr.get_next(), None);
}

#[test]
fn test_backoff_schedule() {
    assert_eq!(backoff_delay_ms(0), 200);
    assert_eq!(backoff_delay_ms(1), 400);
    assert_eq!(backoff_delay_ms(2), 800);
    assert_eq!(BASE_DELAY_MS, 100);
    assert_eq!(MAX_RETRIES, 3);
}

#[test]
fn test_status_classification() {
    assert!(!is_success_status(199));
    assert!(is_success_status(200));
    assert!(is_success_status(299));
    assert!(!is_success_status(300));
    assert!(!is_success_status(429));
    assert!(!is_success_status(500));
}

#[test]
fn test_evaluate_attempt_decisions() {
    let ok = evaluate_attempt(
        0,
        3,
        SendOutcome::Reply { status: 200, body: b"{\"ok\":true}".to_vec() },
    );
    match ok {
        RetryDecision::Done { status, body } => {
            assert_eq!(status, 200);
            assert_eq!(body, b"{\"ok\":true}".to_vec());
        },
        _ => panic!("a 2xx reply must end the run"),
    }

    let retry = evaluate_attempt(0, 3, SendOutcome::Reply { status: 500, body: Vec::new() });
    match retry {
        RetryDecision::RetryAfter { delay_ms } => assert_eq!(delay_ms, 200),
        _ => panic!("a 5xx reply with budget left must retry"),
    }

    let retry2 = evaluate_attempt(1, 3, SendOutcome::Failed);
    match retry2 {
        RetryDecision::RetryAfter { delay_ms } => assert_eq!(delay_ms, 400),
        _ => panic!("a transport error with budget left must retry"),
    }

    let give_up = evaluate_attempt(2, 3, SendOutcome::Failed);
    assert!(matches!(give_up, RetryDecision::GiveUp));
}

#[test]
fn test_config_rejects_empty_chain() {
    let config = Config { chains: vec![("eth".to_string(), Chains { rpc_urls: Vec::new() })] };
    match initialize_load_balancer(config) {
        Err(ConfigError::EmptyChain) => {},
        _ => panic!("a chain without upstreams must be rejected"),
    }
}

#[test]
fn test_config_rejects_limit_over_quota() {
    let servers = vec![RpcServer {
        url: "https://a/".to_string(),
        current_limit: 5,
        request_limit: 1,
    }];
    let config = eth_config(servers);
    match initialize_load_balancer(config) {
        Err(ConfigError::LimitOverQuota) => {},
        _ => panic!("tokens over the quota must be rejected"),
    }
}

#[test]
fn test_config_rejects_duplicate_chain() {
    let one = || vec![RpcServer {
        url: "https://a/".to_string(),
        current_limit: 1,
        request_limit: 1,
    }];
    let config = Config {
        chains: vec![
            ("eth".to_string(), Chains { rpc_urls: one() }),
            ("eth".to_string(), Chains { rpc_urls: one() }),
        ],
    };
    match initialize_load_balancer(config) {
        Err(ConfigError::DuplicateChain) => {},
        _ => panic!("two chains with one name must be rejected"),
    }
}

#[test]
fn test_initialize_load_balancer() {
    let config = eth_config(create_test_servers());
    let lb = initialize_load_balancer(config).unwrap();
    assert_eq!(lb.load_balancers.len(), 1);
    assert_eq!(lb.load_balancers[0].0, "eth");
    assert_eq!(lb.load_balancers[0].1.urls.len(), 2);
    assert_eq!(lb.load_balancers[0].1.index, 0);
    assert_eq!(lb.get_index(&"eth".to_string()), Some(0));
    assert_eq!(lb.get_index(&"polygon".to_string()), None);
}

#[test]
fn test_lookup_chain() {
    let names = vec!["eth".to_string(), "base".to_string()];
    assert_eq!(lookup_chain(&names, &"base".to_string()), Some(1));
    assert_eq!(lookup_chain(&names, &"eth".to_string()), Some(0));
    assert_eq!(lookup_chain(&names, &"solana".to_string()), None);
}

#[test]
fn test_single_upstream_happy_path() {
    // One chain, one upstream with a budget of one; the upstream answers 200.
    let servers = vec![RpcServer {
        url: "https://a/".to_string(),
        current_limit: 1,
        request_limit: 1,
    }];
    let mut lb = initialize_load_balancer(eth_config(servers)).unwrap();
    let outcomes = vec![SendOutcome::Reply { status: 200, body: b"{\"ok\":true}".to_vec() }];
    let (resp, sent) = handle_request(
        &mut lb,
        &"eth".to_string(),
        "POST".to_string(),
        BodyRead::Complete(b"{\"id\":1}".to_vec()),
        outcomes,
        MAX_RETRIES,
    );
    assert_eq!(resp.status, 200);
    assert_eq!(bytes_of(&resp.body), b"{\"ok\":true}");
    assert_eq!(sent.len(), 1);
    assert_eq!(sent[0].url, "https://a/");
    assert_eq!(sent[0].method, "POST");
    assert_eq!(sent[0].body, b"{\"id\":1}".to_vec());
    assert_eq!(lb.load_balancers[0].1.urls[0].current_limit, 0);
}

#[test]
fn test_first_fails_second_succeeds() {
    // Upstream A answers 500, upstream B answers 200: exactly two forwarded
    // attempts, both budgets drained, cursor advanced past A.
    let servers = vec![
        RpcServer { url: "https://a/".to_string(), current_limit: 1, request_limit: 1 },
        RpcServer { url: "https://b/".to_string(), current_limit: 1, request_limit: 1 },
    ];
    let mut lb = initialize_load_balancer(eth_config(servers)).unwrap();
    let outcomes = vec![
        SendOutcome::Reply { status: 500, body: Vec::new() },
        SendOutcome::Reply { status: 200, body: b"{\"r\":1}".to_vec() },
    ];
    let (resp, sent) = handle_request(
        &mut lb,
        &"eth".to_string(),
        "POST".to_string(),
        BodyRead::Complete(b"{\"id\":1}".to_vec()),
        outcomes,
        MAX_RETRIES,
    );
    assert_eq!(resp.status, 200);
    assert_eq!(bytes_of(&resp.body), b"{\"r\":1}");
    assert_eq!(sent.len(), 2);
    assert_eq!(sent[0].url, "https://a/");
    assert_eq!(sent[1].url, "https://b/");
    // Retry idempotence: every attempt forwarded the same bytes.
    assert_eq!(sent[0].body, sent[1].body);
    assert_eq!(sent[0].body, b"{\"id\":1}".to_vec());
    let scheduler = &lb.load_balancers[0].1;
    assert_eq!(scheduler.urls[0].current_limit, 0);
    assert_eq!(scheduler.urls[1].current_limit, 0);
    assert_eq!(scheduler.index, 1);
}

#[test]
fn test_all_upstreams_exhausted() {
    // Both upstreams drained: every pick fails, nothing is forwarded, and
    // the client sees 503 after the retry budget is spent.
    let servers = vec![
        RpcServer { url: "https://a/".to_string(), current_limit: 0, request_limit: 1 },
        RpcServer { url: "https://b/".to_string(), current_limit: 0, request_limit: 1 },
    ];
    let mut lb = initialize_load_balancer(eth_config(servers)).unwrap();
    let (resp, sent) = handle_request(
        &mut lb,
        &"eth".to_string(),
        "POST".to_string(),
        BodyRead::Complete(b"{\"id\":1}".to_vec()),
        Vec::new(),
        MAX_RETRIES,
    );
    assert_eq!(resp.status, 503);
    assert_eq!(text_of(&resp.body), "No available RPC URLs");
    assert_eq!(sent.len(), 0);
    let scheduler = &lb.load_balancers[0].1;
    assert_eq!(scheduler.urls[0].current_limit, 0);
    assert_eq!(scheduler.urls[1].current_limit, 0);
}

#[test]
fn test_refill_then_second_request_succeeds() {
    // After exhaustion a refill restores the quotas and the next request
    // goes through.
    let servers = vec![
        RpcServer { url: "https://a/".to_string(), current_limit: 0, request_limit: 1 },
        RpcServer { url: "https://b/".to_string(), current_limit: 0, request_limit: 1 },
    ];
    let mut lb = initialize_load_balancer(eth_config(servers)).unwrap();
    let (resp, _) = handle_request(
        &mut lb,
        &"eth".to_string(),
        "POST".to_string(),
        BodyRead::Complete(b"{\"id\":1}".to_vec()),
        Vec::new(),
        MAX_RETRIES,
    );
    assert_eq!(resp.status, 503);

    lb.load_balancers[0].1.refill_limits();
    assert_eq!(lb.load_balancers[0].1.urls[0].current_limit, 1);
    assert_eq!(lb.load_balancers[0].1.urls[1].current_limit, 1);

    let outcomes = vec![SendOutcome::Reply { status: 200, body: b"{\"ok\":true}".to_vec() }];
    let (resp, sent) = handle_request(
        &mut lb,
        &"eth".to_string(),
        "POST".to_string(),
        BodyRead::Complete(b"{\"id\":1}".to_vec()),
        outcomes,
        MAX_RETRIES,
    );
    assert_eq!(resp.status, 200);
    assert_eq!(sent.len(), 1);
    // One token was consumed from the refilled budget.
    let drained: u32 = lb.load_balancers[0]
        .1
        .urls
        .iter()
        .map(|s| s.request_limit - s.current_limit)
        .sum();
    assert_eq!(drained, 1);
}

#[test]
fn test_unknown_chain() {
    let mut lb = initialize_load_balancer(eth_config(create_test_servers())).unwrap();
    let (resp, sent) = handle_request(
        &mut lb,
        &"polygon".to_string(),
        "POST".to_string(),
        BodyRead::Complete(b"{\"id\":1}".to_vec()),
        Vec::new(),
        MAX_RETRIES,
    );
    assert_eq!(resp.status, 400);
    assert_eq!(text_of(&resp.body), "Invalid chain: polygon");
    assert_eq!(sent.len(), 0);
    assert_eq!(content_type(), "application/json");
}

#[test]
fn test_oversize_body() {
    // A 2 MiB body fails the limit check; nothing is forwarded and no quota
    // is consumed.
    assert!(!within_body_limit(2 * 1024 * 1024));
    assert!(within_body_limit(MAX_BODY));
    let mut lb = initialize_load_balancer(eth_config(create_test_servers())).unwrap();
    let (resp, sent) = handle_request(
        &mut lb,
        &"eth".to_string(),
        "POST".to_string(),
        BodyRead::TooLargeOrFailed,
        Vec::new(),
        MAX_RETRIES,
    );
    assert_eq!(resp.status, 400);
    assert_eq!(text_of(&resp.body), "Failed to read request body");
    assert_eq!(sent.len(), 0);
    assert_eq!(lb.load_balancers[0].1.urls[0].current_limit, 1);
    assert_eq!(lb.load_balancers[0].1.urls[1].current_limit, 1);
}

#[test]
fn test_response_builders() {
    let lb_resp = upstream_response(404, b"{\"e\":0}".to_vec());
    assert_eq!(lb_resp.status, 404);
    assert_eq!(bytes_of(&lb_resp.body), b"{\"e\":0}");

    let invalid = invalid_chain_response(&"base".to_string());
    assert_eq!(invalid.status, 400);
    assert_eq!(text_of(&invalid.body), "Invalid chain: base");

    let unreadable = body_read_failure_response();
    assert_eq!(unreadable.status, 400);
    assert_eq!(text_of(&unreadable.body), "Failed to read request body");

    let unavailable = no_upstream_response();
    assert_eq!(unavailable.status, 503);
    assert_eq!(text_of(&unavailable.body), "No available RPC URLs");
}

#[test]
fn test_all_attempts_fail() {
    // Healthy budgets but every upstream answers 500: 503 after the budget,
    // one outcome consumed per forwarded attempt.
    let servers = vec![
        RpcServer { url: "https://a/".to_string(), current_limit: 3, request_limit: 3 },
        RpcServer { url: "https://b/".to_string(), current_limit: 3, request_limit: 3 },
    ];
    let mut lb = initialize_load_balancer(eth_config(servers)).unwrap();
    let outcomes = vec![
        SendOutcome::Reply { status: 500, body: Vec::new() },
        SendOutcome::Failed,
        SendOutcome::Reply { status: 429, body: Vec::new() },
    ];
    let (resp, sent) = handle_request(
        &mut lb,
        &"eth".to_string(),
        "POST".to_string(),
        BodyRead::Complete(b"{\"id\":1}".to_vec()),
        outcomes,
        MAX_RETRIES,
    );
    assert_eq!(resp.status, 503);
    assert_eq!(text_of(&resp.body), "No available RPC URLs");
    assert_eq!(sent.len(), 3);
    // Rotation after each failure walks the ring: a, b, a.
    assert_eq!(sent[0].url, "https://a/");
    assert_eq!(sent[1].url, "https://b/");
    assert_eq!(sent[2].url, "https://a/");
}
