use sashiko::dashboard::{
    AggregateCache, aggregation_fits, is_online, process_results, server_base_url, RemoteFindings, RemoteStats,
    RemoteTimeline, ServerConfig, ServerProbe, TimelinePoint,
};

fn server(id: i64, name: &str, port: u16) -> ServerConfig {
    ServerConfig {
        id: Some(id),
        name: name.to_string(),
        ip: "127.0.0.1".to_string(),
        web_port: port,
        description: String::new(),
    }
}

fn stats(patchsets: Option<i64>) -> RemoteStats {
    RemoteStats {
        status: "ok".to_string(),
        version: None,
        pending: None,
        reviewing: None,
        messages: None,
        patchsets,
    }
}

fn findings(total: u32, not_issue: u32, to_fix: u32, fixed: u32) -> RemoteFindings {
    RemoteFindings { total, pending: 0, not_issue, to_fix, fixed }
}

fn timeline(points: &[(&str, u32)]) -> RemoteTimeline {
    RemoteTimeline {
        messages: points
            .iter()
            .map(|(d, c)| TimelinePoint { day: d.to_string(), count: *c })
            .collect(),
        patchsets: vec![],
        patches: vec![],
        reviews: vec![],
    }
}

fn probe(
    cfg: ServerConfig,
    s: Option<RemoteStats>,
    f: Option<RemoteFindings>,
    t: Option<RemoteTimeline>,
) -> ServerProbe {
    let online = is_online(s.as_ref());
    ServerProbe { server: cfg, online, stats: s, findings: f, timeline: t }
}

fn accuracy(num: u32, den: u32) -> f64 {
    if den == 0 {
        0.0
    } else {
        num as f64 / den as f64
    }
}

#[test]
fn test_aggregation() {
    let results = vec![probe(
        server(1, "Server 1", 8080),
        Some(stats(Some(42))),
        Some(findings(100, 20, 30, 40)),
        Some(timeline(&[("2023-01-01", 5)])),
    )];
    let stats = process_results(&results);
    assert_eq!(stats.online_servers, 1);
    assert_eq!(stats.offline_servers, 0);
    assert_eq!(stats.total_issues, 100);
    assert_eq!(stats.total_patchsets, 42);
    // (30 + 40) / (20 + 30 + 40) = 70 / 90 = 0.777...
    assert!((accuracy(stats.accuracy_numerator, stats.accuracy_denominator) - 0.7777).abs() < 0.01);
}

#[test]
fn test_aggregation_zero_servers() {
    let stats = process_results(&vec![]);
    assert_eq!(stats.online_servers, 0);
    assert_eq!(stats.offline_servers, 0);
    assert_eq!(stats.total_issues, 0);
    assert_eq!(accuracy(stats.accuracy_numerator, stats.accuracy_denominator), 0.0);
    assert!(stats.trend_days.is_empty());
}

#[test]
fn test_aggregation_fault_tolerance() {
    let results = vec![
        probe(
            server(1, "Server 1", 8080),
            Some(stats(Some(15))),
            Some(findings(50, 10, 20, 20)),
            Some(timeline(&[])),
        ),
        probe(server(2, "Server 2", 8081), None, None, None),
    ];
    let stats = process_results(&results);
    assert_eq!(stats.online_servers, 1);
    assert_eq!(stats.offline_servers, 1);
    assert_eq!(stats.total_issues, 50);
    assert_eq!(stats.total_patchsets, 15);
    assert!((accuracy(stats.accuracy_numerator, stats.accuracy_denominator) - 0.8).abs() < 0.01);
    assert!(!stats.servers[1].online);
    assert_eq!(stats.pie_chart_data[1].value, 0);
}

#[test]
fn test_aggregation_divide_by_zero_guard() {
    let results = vec![probe(
        server(1, "Server 1", 8080),
        Some(stats(None)),
        Some(findings(0, 0, 0, 0)),
        Some(timeline(&[])),
    )];
    let stats = process_results(&results);
    assert_eq!(stats.online_servers, 1);
    assert_eq!(stats.total_issues, 0);
    assert_eq!(stats.accuracy_denominator, 0);
    assert_eq!(accuracy(stats.accuracy_numerator, stats.accuracy_denominator), 0.0);
}

#[test]
fn test_aggregation_multiple_servers_math() {
    let results = vec![
        probe(
            server(1, "Server 1", 8080),
            Some(stats(None)),
            Some(findings(10, 2, 3, 5)),
            Some(timeline(&[])),
        ),
        probe(
            server(2, "Server 2", 8081),
            Some(stats(None)),
            Some(findings(20, 8, 7, 5)),
            Some(timeline(&[])),
        ),
    ];
    let stats = process_results(&results);
    assert_eq!(stats.online_servers, 2);
    assert_eq!(stats.total_issues, 30);
    assert_eq!(stats.accuracy_numerator, 20);
    assert_eq!(stats.accuracy_denominator, 30);
    assert!((accuracy(stats.accuracy_numerator, stats.accuracy_denominator) - 0.6666).abs() < 0.01);
}

#[test]
fn test_aggregation_per_server_trend_alignment() {
    let results = vec![
        probe(
            server(1, "Node-A", 8080),
            Some(stats(None)),
            Some(findings(0, 0, 0, 0)),
            Some(timeline(&[("2023-01-01", 5), ("2023-01-02", 7)])),
        ),
        probe(
            server(2, "Node-B", 8081),
            Some(stats(None)),
            Some(findings(0, 0, 0, 0)),
            Some(timeline(&[("2023-01-02", 3), ("2023-01-03", 9)])),
        ),
    ];
    let stats = process_results(&results);
    assert_eq!(stats.trend_days, vec!["2023-01-01", "2023-01-02", "2023-01-03"]);
    assert_eq!(stats.trend_series.len(), 2);
    assert_eq!(stats.trend_series[0].name, "Node-A");
    assert_eq!(stats.trend_series[1].name, "Node-B");
    assert_eq!(stats.trend_series[0].counts, vec![5, 7, 0]);
    assert_eq!(stats.trend_series[1].counts, vec![0, 3, 9]);
}

#[test]
fn trend_sums_repeated_days_and_sorts_unordered_input() {
    let results = vec![probe(
        server(1, "A", 1),
        Some(stats(None)),
        None,
        Some(timeline(&[("2024-03-02", 1), ("2024-01-09", 2), ("2024-03-02", 4), ("2024-01-10", 8)])),
    )];
    let stats = process_results(&results);
    assert_eq!(stats.trend_days, vec!["2024-01-09", "2024-01-10", "2024-03-02"]);
    assert_eq!(stats.trend_series[0].counts, vec![2, 8, 5]);
}

#[test]
fn cards_and_pie_follow_configuration() {
    let mut cfg = server(7, "Edge", 9090);
    cfg.id = None;
    cfg.description = "lab".to_string();
    let results = vec![probe(cfg, Some(stats(Some(-3))), Some(findings(4, 1, 1, 1)), None)];
    let stats = process_results(&results);
    assert_eq!(stats.servers[0].id, 0);
    assert_eq!(stats.servers[0].name, "Edge");
    assert_eq!(stats.servers[0].web_port, 9090);
    assert_eq!(stats.servers[0].description, "lab");
    assert!(stats.servers[0].online);
    assert_eq!(stats.pie_chart_data[0].name, "Edge");
    assert_eq!(stats.pie_chart_data[0].value, 4);
    assert_eq!(stats.total_patchsets, -3);
    assert!(stats.trend_days.is_empty());
    assert!(stats.trend_series[0].counts.is_empty());
}

#[test]
fn online_requires_ok_status() {
    let mut s = stats(None);
    assert!(is_online(Some(&s)));
    s.status = "degraded".to_string();
    assert!(!is_online(Some(&s)));
    assert!(!is_online(None));
}

#[test]
fn base_url_of_server() {
    assert_eq!(server_base_url("127.0.0.1", 8080), "http://127.0.0.1:8080");
    assert_eq!(server_base_url("10.0.0.5", 0), "http://10.0.0.5:0");
    assert_eq!(server_base_url("h", 65535), "http://h:65535");
}


#[test]
fn aggregation_overflow_is_detected() {
    let ok = vec![
        probe(server(1, "A", 1), Some(stats(Some(i64::MAX))), Some(findings(1, 1, 1, 1)), Some(timeline(&[("d", u32::MAX)]))),
        probe(server(2, "B", 2), Some(stats(Some(-1))), None, None),
    ];
    assert!(aggregation_fits(&ok));

    let patchsets = vec![
        probe(server(1, "A", 1), Some(stats(Some(i64::MAX))), None, None),
        probe(server(2, "B", 2), Some(stats(Some(1))), None, None),
    ];
    assert!(!aggregation_fits(&patchsets));

    let issues = vec![
        probe(server(1, "A", 1), None, Some(findings(u32::MAX, 0, 0, 0)), None),
        probe(server(2, "B", 2), None, Some(findings(1, 0, 0, 0)), None),
    ];
    assert!(!aggregation_fits(&issues));

    let judged = vec![probe(server(1, "A", 1), None, Some(findings(0, u32::MAX, 1, 0)), None)];
    assert!(!aggregation_fits(&judged));

    let same_day = vec![probe(
        server(1, "A", 1),
        None,
        None,
        Some(timeline(&[("d", u32::MAX), ("e", 5), ("d", 1)])),
    )];
    assert!(!aggregation_fits(&same_day));

    let other_days = vec![probe(
        server(1, "A", 1),
        None,
        None,
        Some(timeline(&[("d", u32::MAX), ("e", u32::MAX)])),
    )];
    assert!(aggregation_fits(&other_days));
}

#[test]
fn fresh_cache_is_served_for_thirty_seconds() {
    let mut cache: AggregateCache<u32> = AggregateCache::new();
    assert_eq!(cache.fresh(0), None);
    cache.store(5_000_000_000, 7);
    assert_eq!(cache.fresh(5_000_000_000), Some(&7));
    assert_eq!(cache.fresh(34_999_999_999), Some(&7));
    assert_eq!(cache.fresh(35_000_000_000), None);
    assert_eq!(cache.fresh(1), Some(&7));
    cache.store(40_000_000_000, 8);
    assert_eq!(cache.fresh(41_000_000_000), Some(&8));
}
