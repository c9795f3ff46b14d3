use telegram_bot_rust::aggregator::{
    arbiter_outcome, arbitration_prompt, arrange_results, EnhancedError, ParticipantOutcome,
};
use telegram_bot_rust::health::{
    distinct_models, is_snapshot_fresh, partition_statuses, probe_status, reconcile, render_report,
    status_snapshot, sweep_report, ModelStatusInfo, ProbeKind, ProbeOutcome, StartupDecision, StoredSnapshot,
};
use telegram_bot_rust::provider::{answer_text, endpoint, timeout_secs, ProviderError, TimeoutClass};

fn names(v: &[&str]) -> Vec<String> {
    v.iter().map(|s| s.to_string()).collect()
}

#[test]
fn results_follow_configured_order() {
    let participants = names(&["A", "B", "C"]);
    let arrivals = vec![
        (1usize, ParticipantOutcome::Answered("from B".to_string())),
        (0usize, ParticipantOutcome::Answered("from A".to_string())),
        (2usize, ParticipantOutcome::Failed),
    ];
    let results = arrange_results(&participants, &arrivals);
    assert_eq!(results.len(), 3);
    assert_eq!(results[0].model, "A");
    assert!(matches!(&results[0].outcome, ParticipantOutcome::Answered(t) if t == "from A"));
    assert_eq!(results[1].model, "B");
    assert!(matches!(&results[1].outcome, ParticipantOutcome::Answered(t) if t == "from B"));
    assert_eq!(results[2].model, "C");
    assert!(matches!(results[2].outcome, ParticipantOutcome::Failed));

    let prompt = arbitration_prompt("2+2?", &results).unwrap();
    let a = prompt.find("from A").unwrap();
    let b = prompt.find("from B").unwrap();
    let c = prompt.find("ОШИБКА: Модель не смогла обработать запрос.").unwrap();
    assert!(a < b && b < c);
    assert!(prompt.contains("**ОРИГИНАЛЬНЫЙ ЗАПРОС ПОЛЬЗОВАТЕЛЯ:**\n2+2?"));
    assert!(prompt.contains("**Ответ от модели (`C`):**"));
    assert!(prompt.ends_with("**ТВОЙ ИТОГОВЫЙ РЕЗУЛЬТАТ (выполни ШАГ 2 и ШАГ 3):**"));
}

#[test]
fn missing_participant_is_a_crash() {
    let participants = names(&["A", "B"]);
    let arrivals = vec![(0usize, ParticipantOutcome::Answered("x".to_string()))];
    let results = arrange_results(&participants, &arrivals);
    assert!(matches!(results[1].outcome, ParticipantOutcome::Crashed));
}

#[test]
fn all_failed_never_reaches_arbiter() {
    let participants = names(&["A", "B", "C"]);
    let arrivals = vec![
        (2usize, ParticipantOutcome::Answered(String::new())),
        (0usize, ParticipantOutcome::Failed),
    ];
    let results = arrange_results(&participants, &arrivals);
    let mut arbiter_calls = 0;
    let outcome = match arbitration_prompt("q", &results) {
        Ok(meta) => {
            arbiter_calls += 1;
            arbiter_outcome(Ok(meta))
        }
        Err(e) => Err(e),
    };
    assert_eq!(outcome, Err(EnhancedError::AllParticipantsFailed));
    assert_eq!(arbiter_calls, 0);
}

#[test]
fn arbiter_failures() {
    assert_eq!(arbiter_outcome(Ok(String::new())), Err(EnhancedError::ArbiterFailed));
    assert_eq!(arbiter_outcome(Err(ProviderError::Timeout)), Err(EnhancedError::ArbiterFailed));
    assert_eq!(arbiter_outcome(Err(ProviderError::Status(502))), Err(EnhancedError::ArbiterFailed));
    assert_eq!(arbiter_outcome(Ok("final".to_string())), Ok("final".to_string()));
}

#[test]
fn probe_statuses() {
    assert_eq!(probe_status("m".to_string(), ProbeKind::Chat, ProbeOutcome::Success).status, "OK");
    assert_eq!(probe_status("m".to_string(), ProbeKind::Chat, ProbeOutcome::Status(503)).status, "API Error 503");
    assert_eq!(probe_status("m".to_string(), ProbeKind::Image, ProbeOutcome::Status(429)).status, "API Error 429");
    assert_eq!(probe_status("m".to_string(), ProbeKind::Chat, ProbeOutcome::Timeout).status, "Timeout");
    assert_eq!(
        probe_status("m".to_string(), ProbeKind::Image, ProbeOutcome::Failure("dns".to_string())).status,
        "Error: dns"
    );
}

#[test]
fn freshness_window() {
    assert!(is_snapshot_fresh(1_000, 1_000 + 5 * 60));
    assert!(!is_snapshot_fresh(1_000, 1_000 + 15 * 60));
    assert!(!is_snapshot_fresh(1_000, 1_600));
    assert!(is_snapshot_fresh(1_000, 1_599));
}

#[test]
fn reconcile_adopts_fresh_snapshot_only() {
    let statuses = vec![
        ModelStatusInfo { model: "b".to_string(), status: "Timeout".to_string() },
        ModelStatusInfo { model: "a".to_string(), status: "OK".to_string() },
    ];
    let json = status_snapshot(&statuses);
    assert_eq!(json, "{\"a\":\"OK\",\"b\":\"Timeout\"}");
    let fresh = reconcile(
        Some(StoredSnapshot { json: json.clone(), updated_at: 10_000 }),
        Some("report".to_string()),
        10_000 + 300,
    );
    match fresh {
        StartupDecision::Adopt { statuses, report } => {
            assert_eq!(report, "report");
            assert_eq!(statuses.len(), 2);
            assert_eq!(statuses[0].model, "a");
            assert_eq!(statuses[1].status, "Timeout");
        }
        StartupDecision::Sweep => panic!("a snapshot five minutes old is adopted"),
    }
    let stale = reconcile(Some(StoredSnapshot { json: json.clone(), updated_at: 10_000 }), Some("r".to_string()), 10_900);
    assert!(matches!(stale, StartupDecision::Sweep));
    let broken = reconcile(Some(StoredSnapshot { json: "not json".to_string(), updated_at: 10_000 }), Some("r".to_string()), 10_001);
    assert!(matches!(broken, StartupDecision::Sweep));
    assert!(matches!(reconcile(None, Some("r".to_string()), 0), StartupDecision::Sweep));
    assert!(matches!(reconcile(Some(StoredSnapshot { json, updated_at: 0 }), None, 1), StartupDecision::Sweep));
}

#[test]
fn report_sorts_and_splits() {
    let statuses = vec![
        ModelStatusInfo { model: "zeta".to_string(), status: "OK".to_string() },
        ModelStatusInfo { model: "beta".to_string(), status: "Timeout".to_string() },
        ModelStatusInfo { model: "alpha".to_string(), status: "OK".to_string() },
        ModelStatusInfo { model: "gamma".to_string(), status: "API Error 500".to_string() },
    ];
    let (working, failing) = partition_statuses(&statuses);
    assert_eq!(working.len(), 2);
    assert_eq!(failing.len(), 2);
    let report = sweep_report("01.01.2025 10:00:00 МСК", &statuses);
    let expected = "<b>Отчёт о состоянии моделей от 01.01.2025 10:00:00 МСК</b>\n\n\
<b>✅ Рабочие модели (2):</b>\n  •  <code>alpha</code>\n  •  <code>zeta</code>\
\n\n<b>❌ Нерабочие модели (2):</b>\n  •  <code>beta</code> - Timeout\n  •  <code>gamma</code> - API Error 500";
    assert_eq!(report, expected);
    let empty = render_report("x", &Vec::new(), &Vec::new());
    assert_eq!(empty, "<b>Отчёт о состоянии моделей от x</b>\n\n");
}

#[test]
fn distinct_models_once_each() {
    let cats = vec![
        ("A".to_string(), names(&["m1", "m2"])),
        ("B".to_string(), names(&["m2", "m3", "m1"])),
        ("C".to_string(), Vec::new()),
    ];
    assert_eq!(distinct_models(&cats), names(&["m1", "m2", "m3"]));
}

#[test]
fn provider_helpers() {
    assert_eq!(endpoint("https://h/v1//", "/chat/completions"), "https://h/v1/chat/completions");
    assert_eq!(endpoint("https://h/v1", "/images/generations"), "https://h/v1/images/generations");
    assert_eq!(timeout_secs(TimeoutClass::InteractiveChat), 120);
    assert_eq!(timeout_secs(TimeoutClass::InteractiveImage), 180);
    assert_eq!(timeout_secs(TimeoutClass::ProbeChat), 20);
    assert_eq!(timeout_secs(TimeoutClass::ProbeImage), 45);
    assert_eq!(answer_text(Vec::new()), "");
    assert_eq!(answer_text(vec![None, Some("x".to_string())]), "");
    assert_eq!(answer_text(vec![Some("hi".to_string())]), "hi");
}
