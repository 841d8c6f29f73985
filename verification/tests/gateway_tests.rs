use ha_gateway::load_balancer::LoadBalancer;
use ha_gateway::types::{CallOutcome, GatewayError, RpcError, RpcResponse, UpstreamConfig};
use ha_gateway::upstream::NodeCondition;

fn three_node_balancer() -> LoadBalancer {
    let configs = vec![
        UpstreamConfig {
            name: "N1".to_string(),
            url: "http://localhost:8545".to_string(),
        },
        UpstreamConfig {
            name: "N2".to_string(),
            url: "http://localhost:8546".to_string(),
        },
        UpstreamConfig {
            name: "N3".to_string(),
            url: "http://localhost:8547".to_string(),
        },
    ];
    LoadBalancer::new(configs)
}

fn clean_response() -> RpcResponse {
    RpcResponse::success(
        serde_json::Value::String("1".to_string()),
        serde_json::Value::String("0x10".to_string()),
    )
}

#[test]
fn test_round_robin_covers_each_node_twice() {
    let mut lb = three_node_balancer();
    let mut picks: Vec<usize> = Vec::new();
    for _ in 0..6 {
        picks.push(lb.choose_healthy_node(0).expect("a healthy node"));
    }
    assert_eq!(picks, vec![0, 1, 2, 0, 1, 2]);
}

#[test]
fn test_unhealthy_node_is_skipped_until_cooldown() {
    let mut lb = three_node_balancer();

    // Three failures on N1 open its circuit.
    lb.nodes[0].force_mark_failure(0);
    lb.nodes[0].force_mark_failure(0);
    lb.nodes[0].force_mark_failure(0);
    assert_eq!(lb.nodes[0].get_status(), NodeCondition::Unhealthy);

    // The next five selections never return N1.
    for _ in 0..5 {
        let picked = lb.choose_healthy_node(1000).expect("a healthy node");
        assert_ne!(picked, 0);
    }

    // Once 60 s have elapsed, N1 is eligible again even though its stored
    // condition is still unhealthy until a real success is recorded.
    assert!(lb.nodes[0].is_healthy(60_000));
    assert_eq!(lb.nodes[0].get_status(), NodeCondition::Unhealthy);
    // With the cursor back at N1's slot, selection may return it again.
    let mut seen_n1 = false;
    for _ in 0..3 {
        if lb.choose_healthy_node(60_000).expect("a healthy node") == 0 {
            seen_n1 = true;
        }
    }
    assert!(seen_n1);
}

#[test]
fn test_empty_node_list_fails_without_panicking() {
    let mut lb = LoadBalancer::new(Vec::new());
    assert!(lb.choose_healthy_node(0).is_none());
    assert!(matches!(
        lb.begin_forward(0),
        Err(GatewayError::NoHealthyNode)
    ));
}

#[test]
fn test_all_nodes_unhealthy_fails_selection() {
    let mut lb = three_node_balancer();
    for i in 0..3 {
        lb.nodes[i].force_mark_failure(0);
        lb.nodes[i].force_mark_failure(0);
        lb.nodes[i].force_mark_failure(0);
    }
    assert!(lb.choose_healthy_node(0).is_none());
    assert!(matches!(lb.begin_forward(0), Err(GatewayError::NoHealthyNode)));
}

#[test]
fn test_forward_outcomes_map_to_errors_and_breaker() {
    let mut lb = three_node_balancer();

    let r = lb.complete_forward(0, CallOutcome::TransportError("refused".to_string()), 0);
    assert!(matches!(r, Err(GatewayError::TransportFailure(_))));
    assert_eq!(lb.nodes[0].get_consecutive_failures(), 1);

    let r = lb.complete_forward(0, CallOutcome::Timeout("deadline".to_string()), 0);
    assert!(matches!(r, Err(GatewayError::TimeoutFailure(_))));

    let r = lb.complete_forward(0, CallOutcome::HttpStatus(503), 0);
    assert!(matches!(r, Err(GatewayError::UpstreamStatusFailure(503))));
    assert_eq!(lb.nodes[0].get_consecutive_failures(), 3);
    assert_eq!(lb.nodes[0].get_status(), NodeCondition::Unhealthy);

    let r = lb.complete_forward(1, CallOutcome::ParseError("bad body".to_string()), 0);
    assert!(matches!(r, Err(GatewayError::TransportFailure(_))));

    // A decoded response that carries an RPC-level error is a failure too.
    let resp = RpcResponse {
        jsonrpc: "2.0".to_string(),
        result: None,
        error: Some(RpcError {
            code: -32000,
            message: "upstream busy".to_string(),
            data: None,
        }),
        id: serde_json::Value::String("1".to_string()),
    };
    let r = lb.complete_forward(1, CallOutcome::Response(resp), 0);
    assert!(matches!(r, Err(GatewayError::RpcProtocolFailure(e)) if e.code == -32000));
    assert_eq!(lb.nodes[1].get_consecutive_failures(), 2);

    // A clean response is surfaced unchanged and closes the circuit.
    let r = lb.complete_forward(0, CallOutcome::Response(clean_response()), 0);
    let ok = r.expect("clean response is a success");
    assert_eq!(ok.jsonrpc, "2.0");
    assert_eq!(
        ok.result,
        Some(serde_json::Value::String("0x10".to_string()))
    );
    assert_eq!(lb.nodes[0].get_consecutive_failures(), 0);
    assert_eq!(lb.nodes[0].get_status(), NodeCondition::Healthy);
}

#[test]
fn test_get_nodes_status_snapshot() {
    let mut lb = three_node_balancer();
    lb.nodes[2].force_mark_failure(0);
    lb.nodes[2].force_mark_failure(0);
    lb.nodes[2].force_mark_failure(0);

    let status = lb.get_nodes_status();
    assert_eq!(
        status,
        vec![
            ("N1".to_string(), "HEALTHY".to_string()),
            ("N2".to_string(), "HEALTHY".to_string()),
            ("N3".to_string(), "UNHEALTHY".to_string()),
        ]
    );
}

#[test]
fn test_selection_advances_cursor_on_failure_too() {
    let mut lb = three_node_balancer();
    // Selection picks N1 and the cursor moves on, so the next request does
    // not hammer the same node.
    assert_eq!(lb.choose_healthy_node(0), Some(0));
    let r = lb.complete_forward(0, CallOutcome::Timeout("deadline".to_string()), 0);
    assert!(r.is_err());
    assert_eq!(lb.choose_healthy_node(0), Some(1));
}

#[test]
fn test_response_envelope_constructors() {
    let ok = RpcResponse::success(
        serde_json::Value::String("7".to_string()),
        serde_json::Value::String("0xabc".to_string()),
    );
    assert_eq!(ok.jsonrpc, "2.0");
    assert_eq!(ok.result, Some(serde_json::Value::String("0xabc".to_string())));
    assert!(ok.error.is_none());
    assert_eq!(ok.id, serde_json::Value::String("7".to_string()));

    let err = RpcResponse::error(
        serde_json::Value::Null,
        -32603,
        "Internal error".to_string(),
    );
    assert_eq!(err.jsonrpc, "2.0");
    assert!(err.result.is_none());
    let e = err.error.expect("an error object");
    assert_eq!(e.code, -32603);
    assert_eq!(e.message, "Internal error");
    assert!(e.data.is_none());
    assert_eq!(err.id, serde_json::Value::Null);
}

#[test]
fn test_begin_forward_selects_in_rotation() {
    let mut lb = three_node_balancer();
    assert!(matches!(lb.begin_forward(0), Ok(0)));
    assert!(matches!(lb.begin_forward(0), Ok(1)));
    assert!(matches!(lb.begin_forward(0), Ok(2)));
    assert!(matches!(lb.begin_forward(0), Ok(0)));
}

#[test]
fn test_breaker_lifecycle_through_forwarding() {
    let mut lb = three_node_balancer();

    // Three failed forwards against N1 trip its breaker.
    for _ in 0..3 {
        let idx = lb.begin_forward(0).expect("a healthy node");
        if idx == 0 {
            let r = lb.complete_forward(0, CallOutcome::TransportError("down".to_string()), 0);
            assert!(r.is_err());
        }
    }
    lb.nodes[0].force_mark_failure(0);
    lb.nodes[0].force_mark_failure(0);
    lb.nodes[0].force_mark_failure(0);
    assert_eq!(lb.nodes[0].get_status(), NodeCondition::Unhealthy);

    // While cooling down N1 is skipped; once the cooldown has elapsed a
    // successful trial call heals it.
    assert!(!lb.nodes[0].is_healthy(59_999));
    assert!(lb.nodes[0].is_healthy(60_000));
    let r = lb.complete_forward(0, CallOutcome::Response(clean_response()), 60_000);
    assert!(r.is_ok());
    assert_eq!(lb.nodes[0].get_status(), NodeCondition::Healthy);
    assert_eq!(lb.nodes[0].get_consecutive_failures(), 0);
    assert!(lb.nodes[0].is_healthy(60_000));
}

#[test]
fn test_node_names_follow_configuration() {
    let lb = three_node_balancer();
    assert_eq!(lb.nodes[0].get_name(), "N1");
    assert_eq!(lb.nodes[1].get_name(), "N2");
    assert_eq!(lb.nodes[2].get_name(), "N3");
}
