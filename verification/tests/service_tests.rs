use open_editor_lib::command::{CommandEnvelope, EditorCommand};
use open_editor_lib::service::{capability_token, capability_token_from, constant_time_eq, plan_request, CommandService, ServiceInfo, ServiceRequest, ServiceStep};

fn request(token: &str, action: &str, project_id: Option<u128>) -> ServiceRequest {
    ServiceRequest { token: token.into(), action: action.into(), project_id, envelope: None }
}

fn refusal(step: ServiceStep) -> String {
    match step {
        ServiceStep::Refuse(m) => m,
        other => panic!("expected a refusal, got {:?}", other),
    }
}

#[test]
fn constant_time_comparison() {
    assert!(constant_time_eq(b"secret", b"secret"));
    assert!(!constant_time_eq(b"secret", b"secreT"));
    assert!(!constant_time_eq(b"secret", b"secret!"));
    assert!(!constant_time_eq(b"", b"x"));
    assert!(constant_time_eq(b"", b""));
}

#[test]
fn planner_requires_token_and_authorized_project() {
    let mut service = CommandService::new();
    assert!(service.authorize(42, "/projects/a".into()).is_none());
    service.started(ServiceInfo { socket_path: "/tmp/s.sock".into(), capability_token: "tok".into() });
    let info = service.authorize(43, "/projects/b".into()).unwrap();
    assert_eq!(info.capability_token, "tok");

    assert_eq!(refusal(plan_request(request("wrong", "snapshot", Some(42)), "tok", &service)), "unauthorized command service request");
    match plan_request(request("tok", "snapshot", Some(42)), "tok", &service) {
        ServiceStep::Snapshot(folder) => assert_eq!(folder, "/projects/a"),
        other => panic!("unexpected {:?}", other),
    }
    assert_eq!(refusal(plan_request(request("tok", "snapshot", Some(7)), "tok", &service)), "project is not authorized for this app session");
    assert_eq!(refusal(plan_request(request("tok", "snapshot", None), "tok", &service)), "projectId is required");
    assert_eq!(refusal(plan_request(request("tok", "command", Some(42)), "tok", &service)), "envelope is required");
    assert_eq!(refusal(plan_request(request("tok", "delete", Some(42)), "tok", &service)), "unsupported command service action");
}

#[test]
fn command_requests_use_the_envelope_project() {
    let mut service = CommandService::new();
    service.authorize(43, "/projects/b".into());
    let envelope = CommandEnvelope {
        command_id: 1,
        project_id: 43,
        source: "codex".into(),
        conversation_id: None,
        batch_id: 2,
        expected_project_revision: 0,
        payload: EditorCommand::RemoveClip { track_id: 3, clip_id: 4 },
    };
    let req = ServiceRequest { token: "tok".into(), action: "command".into(), project_id: Some(999), envelope: Some(envelope) };
    match plan_request(req, "tok", &service) {
        ServiceStep::Command(folder, env) => {
            assert_eq!(folder, "/projects/b");
            assert_eq!(env.project_id, 43);
        }
        other => panic!("unexpected {:?}", other),
    }
}

#[test]
fn capability_tokens_are_64_hex_digits_of_random_bits() {
    let a = 0x0123_4567_89ab_4cde_8f01_2345_6789_abcd_u128;
    let b = 0xfedc_ba98_7654_4321_b0fe_dcba_9876_5432_u128;
    let c = 0x1111_2222_3333_4444_9555_6666_7777_8888_u128;
    let token = capability_token_from(a, b, c);
    assert_eq!(token, "0123456789abcdef0123456789abcdfedcba9876543210fedcba987654321111");
    let fresh = capability_token();
    assert_eq!(fresh.len(), 64);
    assert!(fresh.chars().all(|c| c.is_ascii_digit() || ('a'..='f').contains(&c)));
    assert_ne!(fresh, capability_token());
}

#[test]
fn authorizations_accumulate_under_one_service() {
    let mut service = CommandService::new();
    assert!(service.authorize(1, "/one".into()).is_none());
    service.started(ServiceInfo { socket_path: "/tmp/s.sock".into(), capability_token: "tok".into() });
    let first = service.authorize(1, "/one".into()).unwrap();
    let second = service.authorize(2, "/two".into()).unwrap();
    assert_eq!((first.socket_path.as_str(), first.capability_token.as_str()), (second.socket_path.as_str(), second.capability_token.as_str()));
    assert_eq!(service.folder(1).as_deref(), Some("/one"));
    assert_eq!(service.folder(2).as_deref(), Some("/two"));
}

#[test]
fn identifier_text_matches_the_uuid_crate() {
    for id in [0u128, 1, 0x0123_4567_89ab_4cde_8f01_2345_6789_abcd, u128::MAX, open_editor_lib::ids::fresh_id()] {
        assert_eq!(open_editor_lib::text::uuid_string(id), uuid::Uuid::from_u128(id).to_string());
    }
}
