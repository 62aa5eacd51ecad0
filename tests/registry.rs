use mcp_registry::error::McpError;
use mcp_registry::mcp::McpState;

fn id(s: &str) -> String {
    s.to_string()
}

fn connected(names: &[(&str, u32)]) -> McpState<u32> {
    let mut st = McpState::new();
    for (name, session) in names {
        assert_eq!(st.begin_connect(id(name)), Ok(()));
        assert_eq!(st.finish_connect(&id(name), Ok(*session)), Ok(()));
    }
    st
}

#[test]
fn never_connected_id_is_rejected() {
    let mut st: McpState<u32> = McpState::new();
    assert_eq!(st.disconnect(&id("bmi")), Err(McpError::NotConnected(id("bmi"))));
    assert_eq!(st.session(&id("bmi")), Err(McpError::NotConnected(id("bmi"))));
    assert!(!st.is_connected(&id("bmi")));
    assert!(!st.is_pending(&id("bmi")));
}

#[test]
fn second_connect_is_rejected_and_first_session_stays() {
    let mut st = connected(&[("bmi", 7)]);
    assert_eq!(st.begin_connect(id("bmi")), Err(McpError::AlreadyConnected(id("bmi"))));
    assert_eq!(st.session(&id("bmi")), Ok(&7));
    assert!(st.is_connected(&id("bmi")));
    assert!(!st.is_pending(&id("bmi")));
}

#[test]
fn identifier_is_reusable_after_disconnect() {
    let mut st = connected(&[("bmi", 7)]);
    assert_eq!(st.disconnect(&id("bmi")), Ok(7));
    assert!(!st.is_connected(&id("bmi")));
    assert_eq!(st.session(&id("bmi")), Err(McpError::NotConnected(id("bmi"))));
    assert_eq!(st.begin_connect(id("bmi")), Ok(()));
    assert_eq!(st.finish_connect(&id("bmi"), Ok(8)), Ok(()));
    assert_eq!(st.session(&id("bmi")), Ok(&8));
}

#[test]
fn disconnect_twice_fails_the_second_time() {
    let mut st = connected(&[("bmi", 7)]);
    assert_eq!(st.disconnect(&id("bmi")), Ok(7));
    assert_eq!(st.disconnect(&id("bmi")), Err(McpError::NotConnected(id("bmi"))));
}

#[test]
fn racing_connects_let_exactly_one_through() {
    let mut st: McpState<u32> = McpState::new();
    let results: Vec<Result<(), McpError>> = (0..4).map(|_| st.begin_connect(id("bmi"))).collect();
    assert_eq!(results[0], Ok(()));
    for r in &results[1..] {
        assert_eq!(*r, Err(McpError::AlreadyConnected(id("bmi"))));
    }
    assert!(st.is_pending(&id("bmi")));
    assert_eq!(st.finish_connect(&id("bmi"), Ok(1)), Ok(()));
    assert_eq!(st.begin_connect(id("bmi")), Err(McpError::AlreadyConnected(id("bmi"))));
    assert_eq!(st.session(&id("bmi")), Ok(&1));
}

#[test]
fn pending_connect_is_not_connected() {
    let mut st: McpState<u32> = McpState::new();
    assert_eq!(st.begin_connect(id("bmi")), Ok(()));
    assert!(st.is_pending(&id("bmi")));
    assert!(!st.is_connected(&id("bmi")));
    assert_eq!(st.session(&id("bmi")), Err(McpError::NotConnected(id("bmi"))));
    assert_eq!(st.disconnect(&id("bmi")), Err(McpError::NotConnected(id("bmi"))));
    assert!(st.is_pending(&id("bmi")));
}

#[test]
fn launch_failure_releases_the_identifier() {
    let mut st: McpState<u32> = McpState::new();
    assert_eq!(st.begin_connect(id("bmi")), Ok(()));
    let e = McpError::LaunchFailure(id("No such file or directory"));
    assert_eq!(st.finish_connect(&id("bmi"), Err(e.clone())), Err(e));
    assert!(!st.is_pending(&id("bmi")));
    assert!(!st.is_connected(&id("bmi")));
    assert_eq!(st.begin_connect(id("bmi")), Ok(()));
}

#[test]
fn handshake_failure_releases_the_identifier() {
    let mut st = connected(&[("other", 3)]);
    assert_eq!(st.begin_connect(id("bmi")), Ok(()));
    let e = McpError::HandshakeFailure(id("connection closed"));
    assert_eq!(st.finish_connect(&id("bmi"), Err(e.clone())), Err(e));
    assert_eq!(st.session(&id("bmi")), Err(McpError::NotConnected(id("bmi"))));
    assert_eq!(st.session(&id("other")), Ok(&3));
}

#[test]
fn sessions_are_kept_apart_by_identifier() {
    let mut st = connected(&[("a", 1), ("b", 2), ("c", 3)]);
    assert_eq!(st.session(&id("a")), Ok(&1));
    assert_eq!(st.session(&id("b")), Ok(&2));
    assert_eq!(st.session(&id("c")), Ok(&3));
    assert_eq!(st.disconnect(&id("b")), Ok(2));
    assert_eq!(st.session(&id("a")), Ok(&1));
    assert_eq!(st.session(&id("b")), Err(McpError::NotConnected(id("b"))));
    assert_eq!(st.session(&id("c")), Ok(&3));
    assert_eq!(st.disconnect(&id("a")), Ok(1));
    assert_eq!(st.disconnect(&id("c")), Ok(3));
    assert_eq!(st.begin_connect(id("a")), Ok(()));
}

#[test]
fn identifiers_differ_by_case_and_prefix() {
    let mut st = connected(&[("bmi", 1)]);
    assert_eq!(st.session(&id("BMI")), Err(McpError::NotConnected(id("BMI"))));
    assert_eq!(st.session(&id("bm")), Err(McpError::NotConnected(id("bm"))));
    assert_eq!(st.begin_connect(id("bmi2")), Ok(()));
}

#[test]
fn error_messages() {
    assert_eq!(
        McpError::AlreadyConnected(id("bmi")).message(),
        "Client with id 'bmi' already connected"
    );
    assert_eq!(McpError::NotConnected(id("bmi")).message(), "Client with id 'bmi' not connected");
    assert_eq!(
        McpError::LaunchFailure(id("permission denied")).message(),
        "failed to launch server: permission denied"
    );
    assert_eq!(
        McpError::HandshakeFailure(id("connection closed")).message(),
        "handshake with server failed: connection closed"
    );
    assert_eq!(McpError::ProtocolError(id("broken pipe")).message(), "protocol error: broken pipe");
}

#[test]
fn remote_tool_failure_is_not_a_registry_error() {
    // A reply whose own flag marks the tool as failed passes through as Ok.
    let reply: Result<(bool, &str), String> = Ok((true, "unknown tool: xxx"));
    assert_eq!(mcp_registry::mcp::forward_reply(reply), Ok((true, "unknown tool: xxx")));
}

#[test]
fn transport_failure_is_a_protocol_error() {
    let reply: Result<u32, String> = Err(id("connection closed"));
    assert_eq!(
        mcp_registry::mcp::forward_reply(reply),
        Err(McpError::ProtocolError(id("connection closed")))
    );
}
