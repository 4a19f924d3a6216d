use pjc_rpc::buffer::{buffers_from_payload, feature_index_tag, payload_from_buffers, tag_feature, ByteBuffer};
use pjc_rpc::codec::{decode_payload_texts, encode_init_json, encode_payload_json, encode_payload_texts};
use pjc_rpc::connect::{
    after_attempt, ca_path, check_tls_flags, client_kind, connect_target, create_client, host_url_text,
    select_tls_source, should_attempt, tls_dir_files, tls_domain_name, try_create_client, ClientKind, ConnectAction,
    TargetError,
    TlsSource,
};
use pjc_rpc::grpc::{recv, recv_call, send, send_call, GrpcRecvCall, GrpcSendCall};
use pjc_rpc::messages::{buffers_encodable, buffers_from_texts, encrypted_sums, feature_request, key_exchange_body};
use pjc_rpc::rest::{endpoint_url, rest_route, route_url, send_rest_api, RestRoute};
use pjc_rpc::session::{advance, first_step, step_url, Step};

fn bb(bytes: &[u8]) -> ByteBuffer {
    ByteBuffer { buffer: bytes.to_vec() }
}

#[test]
fn payload_round_trips_through_buffers() {
    let data = vec![bb(&[1, 2, 3]), bb(&[]), bb(&[255])];
    let payload = payload_from_buffers(&data);
    assert_eq!(payload, vec![vec![1u8, 2, 3], vec![], vec![255u8]]);
    let back = buffers_from_payload(&payload);
    assert_eq!(back.len(), 3);
    assert_eq!(back[0].buffer, vec![1u8, 2, 3]);
    assert!(back[1].buffer.is_empty());
    assert_eq!(back[2].buffer, vec![255u8]);
}

#[test]
fn payload_json_is_compact_base64() {
    let payload = vec![vec![1u8, 2], b"hello".to_vec(), vec![]];
    let body = encode_payload_json(&payload);
    assert_eq!(body, "{\"payload\":[\"AQI=\",\"aGVsbG8=\",\"\"]}");
}

#[test]
fn empty_payload_json() {
    let body = encode_payload_json(&Vec::new());
    assert_eq!(body, "{\"payload\":[]}");
}

#[test]
fn init_json_wraps_public_key() {
    let body = encode_init_json(&vec![vec![0u8, 0, 0]]);
    assert_eq!(body, "{\"public_key\":{\"payload\":[\"AAAA\"]}}");
    let body2 = key_exchange_body(&vec![bb(&[0, 0, 0])]);
    assert_eq!(body2, body);
}

#[test]
fn base64_texts_decode_back() {
    let payload = vec![vec![9u8, 8, 7, 6], b"pjc".to_vec(), vec![]];
    let texts = encode_payload_texts(&payload);
    assert_eq!(texts, vec!["CQgHBg==".to_string(), "cGpj".to_string(), "".to_string()]);
    assert_eq!(decode_payload_texts(&texts), Some(payload));
}

#[test]
fn undecodable_text_is_refused() {
    let texts = vec!["AQI=".to_string(), "not base64!".to_string()];
    assert_eq!(decode_payload_texts(&texts), None);
    assert!(buffers_from_texts(&texts).is_none());
}

#[test]
fn company_keys_from_texts() {
    let texts = vec!["AQI=".to_string(), "AwQ=".to_string()];
    let keys = buffers_from_texts(&texts).unwrap();
    assert_eq!(keys.len(), 2);
    assert_eq!(keys[0].buffer, vec![1u8, 2]);
    assert_eq!(keys[1].buffer, vec![3u8, 4]);
}

#[test]
fn encrypted_sums_one_list_per_feature() {
    let sums = vec![Some(vec!["AQ==".to_string()]), Some(vec![]), Some(vec!["AgM=".to_string(), "BA==".to_string()])];
    let res = encrypted_sums(&sums).unwrap();
    assert_eq!(res.len(), 3);
    assert_eq!(res[0][0].buffer, vec![1u8]);
    assert!(res[1].is_empty());
    assert_eq!(res[2][0].buffer, vec![2u8, 3]);
    assert_eq!(res[2][1].buffer, vec![4u8]);
    let bad = vec![Some(vec!["AQ==".to_string()]), Some(vec!["%%".to_string()])];
    assert!(encrypted_sums(&bad).is_none());
}

#[test]
fn feature_tag_is_little_endian_u64() {
    assert_eq!(feature_index_tag(0).buffer, vec![0u8; 8]);
    assert_eq!(feature_index_tag(258).buffer, vec![2u8, 1, 0, 0, 0, 0, 0, 0]);
    assert_eq!(
        feature_index_tag(0x0102_0304_0506_0708).buffer,
        vec![8u8, 7, 6, 5, 4, 3, 2, 1]
    );
    assert_eq!(feature_index_tag(usize::MAX).buffer, (usize::MAX as u64).to_le_bytes().to_vec());
}

#[test]
fn distinct_indices_have_distinct_tags() {
    let a = feature_index_tag(1).buffer;
    let b = feature_index_tag(256).buffer;
    assert_ne!(a, b);
}

#[test]
fn tag_feature_appends_index() {
    let mut feature = vec![bb(&[5, 6])];
    tag_feature(&mut feature, 3);
    assert_eq!(feature.len(), 2);
    assert_eq!(feature[0].buffer, vec![5u8, 6]);
    assert_eq!(feature[1].buffer, 3u64.to_le_bytes().to_vec());
}

#[test]
fn rest_routes_by_name() {
    assert_eq!(rest_route(&"e_company_keys".to_string()), Some(RestRoute::ECompanyKeys));
    assert_eq!(rest_route(&"u_partner_keys".to_string()), Some(RestRoute::UPartnerKeys));
    assert_eq!(rest_route(&"u_partner_feature".to_string()), Some(RestRoute::UPartnerFeature));
    assert_eq!(rest_route(&"u_company_keys".to_string()), None);
    assert_eq!(rest_route(&"".to_string()), None);
}

#[test]
fn route_urls() {
    let host = "https://pjc.example".to_string();
    assert_eq!(route_url(RestRoute::ECompanyKeys, &host), "https://pjc.example/v1/send_e_company_keys");
    assert_eq!(route_url(RestRoute::UPartnerKeys, &host), "https://pjc.example/v1/send_u_partner_keys");
    assert_eq!(route_url(RestRoute::UPartnerFeature, &host), "https://pjc.example/v1/send_u_partner_feature");
    assert_eq!(endpoint_url(&host, "/v1/recv_stats"), "https://pjc.example/v1/recv_stats");
}

#[test]
fn send_rest_api_builds_request() {
    let data = vec![bb(&[1, 2]), bb(&[3])];
    let req = send_rest_api(&data, &"u_partner_keys".to_string(), &"http://0.0.0.0:10011".to_string());
    assert_eq!(req.url, "http://0.0.0.0:10011/v1/send_u_partner_keys");
    assert_eq!(req.body, "{\"payload\":[\"AQI=\",\"Aw==\"]}");
}

#[test]
fn feature_request_tags_and_posts() {
    let req = feature_request(vec![bb(&[1])], 1, &"http://h".to_string());
    assert_eq!(req.url, "http://h/v1/send_u_partner_feature");
    assert_eq!(req.body, "{\"payload\":[\"AQ==\",\"AQAAAAAAAAA=\"]}");
}

#[test]
fn grpc_calls_by_name() {
    assert_eq!(send_call(&"e_company_keys".to_string()), Some(GrpcSendCall::SendECompanyKeys));
    assert_eq!(send_call(&"u_partner_keys".to_string()), Some(GrpcSendCall::SendUPartnerKeys));
    assert_eq!(send_call(&"u_partner_feature".to_string()), Some(GrpcSendCall::SendUPartnerFeature));
    assert_eq!(send_call(&"stats".to_string()), None);
    assert_eq!(send(&"u_partner_keys".to_string()), GrpcSendCall::SendUPartnerKeys);
    assert_eq!(recv_call(&"u_company_keys".to_string()), Some(GrpcRecvCall::RecvUCompanyKeys));
    assert_eq!(recv_call(&"e_company_keys".to_string()), None);
}

#[test]
fn recv_replaces_previous_contents() {
    let mut data = vec![bb(&[9]), bb(&[9, 9])];
    let call = recv(&"u_company_keys".to_string(), &mut data, vec![bb(&[1])]);
    assert_eq!(call, GrpcRecvCall::RecvUCompanyKeys);
    assert_eq!(data.len(), 1);
    assert_eq!(data[0].buffer, vec![1u8]);
    recv(&"u_company_keys".to_string(), &mut data, vec![]);
    assert!(data.is_empty());
}

#[test]
fn tls_flag_combinations() {
    assert!(check_tls_flags(true, None, None, None, None));
    assert!(check_tls_flags(true, Some("d"), Some("k"), None, None));
    assert!(check_tls_flags(false, Some("d"), None, None, None));
    assert!(check_tls_flags(false, None, Some("k"), Some("c"), Some("a")));
    assert!(check_tls_flags(false, None, None, None, Some("a")));
    assert!(!check_tls_flags(false, None, None, None, None));
    assert!(!check_tls_flags(false, Some("d"), None, None, Some("a")));
    assert!(!check_tls_flags(false, None, Some("k"), None, Some("a")));
}

#[test]
fn ca_path_relative_to_home() {
    assert_eq!(ca_path("ca.pem", Some("/home/partner")), "/home/partner/ca.pem");
    assert_eq!(ca_path("ca.pem", None), "/ca.pem");
}

#[test]
fn tls_source_selection() {
    assert!(select_tls_source(true, Some("d"), Some("k"), None, None, None).is_none());
    match select_tls_source(false, Some("/etc/tls"), None, None, None, None) {
        Some(TlsSource::Dir(d)) => assert_eq!(d, "/etc/tls"),
        _ => panic!("expected a TLS directory"),
    }
    match select_tls_source(false, None, Some("k.pem"), Some("c.pem"), Some("ca.pem"), Some("/h")) {
        Some(TlsSource::Paths { key, cert, ca }) => {
            assert_eq!(key, "k.pem");
            assert_eq!(cert, "c.pem");
            assert_eq!(ca, "ca.pem");
        },
        _ => panic!("expected two-way TLS paths"),
    }
    match select_tls_source(false, None, None, None, Some("ca.pem"), Some("/root")) {
        Some(TlsSource::ClientCa(p)) => assert_eq!(p, "/root/ca.pem"),
        _ => panic!("expected one-way TLS"),
    }
}

#[test]
fn tls_directory_layout() {
    let (key, cert, ca) = tls_dir_files("/etc/pjc");
    assert_eq!(key, "/etc/pjc/client.key");
    assert_eq!(cert, "/etc/pjc/client.pem");
    assert_eq!(ca, "/etc/pjc/ca.pem");
}

#[test]
fn host_url_texts() {
    assert_eq!(host_url_text("localhost:10009", true), "http://localhost:10009");
    assert_eq!(host_url_text("localhost:10009", false), "https://localhost:10009");
    assert_eq!(host_url_text("https://pjc.app.cloud.gov", true), "https://pjc.app.cloud.gov");
    assert_eq!(host_url_text("", false), "https://");
}

#[test]
fn connect_target_parses_host() {
    let t = connect_target("localhost:10009", false, None, &"pjc".to_string()).unwrap();
    assert_eq!(t.url, "https://localhost:10009/");
    assert_eq!(t.tls_domain, Some("localhost".to_string()));
    assert_eq!(t.kind, Some(ClientKind::Pjc));
    let t = connect_target("localhost:10009", false, Some("ca.world.example"), &"pjc".to_string()).unwrap();
    assert_eq!(t.tls_domain, Some("ca.world.example".to_string()));
    let t = connect_target("0.0.0.0:10011", true, Some("ignored"), &"other".to_string()).unwrap();
    assert_eq!(t.url, "http://0.0.0.0:10011/");
    assert_eq!(t.tls_domain, None);
    assert_eq!(t.kind, None);
}

#[test]
fn connect_target_errors() {
    assert!(matches!(
        connect_target("http://[bad", true, None, &"pjc".to_string()),
        Err(TargetError::BadHostUrl)
    ));
    assert!(matches!(
        connect_target("127.0.0.1:10009", false, None, &"pjc".to_string()),
        Err(TargetError::NoTlsDomain)
    ));
    assert!(connect_target("127.0.0.1:10009", false, Some("localhost"), &"pjc".to_string()).is_ok());
}

#[test]
fn connect_decisions() {
    assert!(should_attempt(true, None));
    assert!(should_attempt(false, Some(ClientKind::Pjc)));
    assert!(!should_attempt(false, None));
    assert_eq!(after_attempt(true, Some(ClientKind::Pjc), true), ConnectAction::UseClient);
    assert_eq!(after_attempt(true, None, true), ConnectAction::FailWrongClient);
    assert_eq!(after_attempt(true, Some(ClientKind::Pjc), false), ConnectAction::RetryAfterMillis(3000));
    assert_eq!(after_attempt(false, Some(ClientKind::Pjc), false), ConnectAction::FailConnect);
}

#[test]
fn tls_domain_choice() {
    assert_eq!(tls_domain_name(Some("localhost"), Some("example.com")), Some("localhost".to_string()));
    assert_eq!(tls_domain_name(None, Some("example.com")), Some("example.com".to_string()));
    assert_eq!(tls_domain_name(None, None), None);
}

#[test]
fn client_kinds() {
    assert_eq!(client_kind(&"pjc".to_string()), Some(ClientKind::Pjc));
    assert_eq!(client_kind(&"private-id-multi-key".to_string()), None);
}

#[test]
fn create_client_plan_one_way_tls() {
    let plan = create_client(
        false,
        Some("localhost:10009"),
        None,
        None,
        None,
        Some("ca.pem"),
        Some("localhost"),
        "pjc".to_string(),
        Some("/home/p"),
    );
    assert_eq!(plan.target.url, "https://localhost:10009/");
    assert_eq!(plan.target.tls_domain, Some("localhost".to_string()));
    assert_eq!(plan.target.kind, Some(ClientKind::Pjc));
    assert_eq!(plan.on_failure, ConnectAction::RetryAfterMillis(3000));
    match plan.tls {
        Some(TlsSource::ClientCa(p)) => assert_eq!(p, "/home/p/ca.pem"),
        _ => panic!("expected one-way TLS"),
    }
}

#[test]
fn create_client_plan_without_tls() {
    let plan =
        create_client(true, Some("0.0.0.0:10011"), Some("d"), Some("k"), None, None, Some("x"), "pjc".to_string(), None);
    assert!(plan.tls.is_none());
    assert!(plan.target.tls_domain.is_none());
    assert_eq!(plan.target.url, "http://0.0.0.0:10011/");
    assert_eq!(plan.on_failure, ConnectAction::FailConnect);
}

#[test]
fn try_create_client_tests_first() {
    let plan = try_create_client(false, "localhost:10009", Some("/etc/tls"), None, None, None, None, "pjc".to_string(), None)
        .unwrap();
    assert_eq!(plan.target.tls_domain, Some("localhost".to_string()));
    match plan.tls {
        Some(TlsSource::Dir(d)) => assert_eq!(d, "/etc/tls"),
        _ => panic!("expected a TLS directory"),
    }
    assert!(try_create_client(false, "0.0.0.0:10011", Some("/etc/tls"), None, None, None, None, "pjc".to_string(), None)
        .is_none());
    assert!(try_create_client(true, "localhost:10009", None, None, None, None, None, "private-id-multi-key".to_string(), None)
        .is_none());
}

#[test]
fn tls_panic_case_is_refused_beforehand() {
    // no TLS switch and no TLS material: no client can be set up
    assert!(!check_tls_flags(false, None, None, None, None));
    assert_eq!(client_kind(&"private-id-multi-key".to_string()), None);
}

#[test]
fn session_visits_steps_in_order() {
    let n = 3usize;
    let mut step = first_step();
    let mut seen = vec![step];
    while step != Step::Done {
        step = advance(step, n);
        seen.push(step);
    }
    assert_eq!(
        seen,
        vec![
            Step::KeyExchange,
            Step::RecvCompanyKeys,
            Step::SendCompanyKeys,
            Step::SendPartnerKeys,
            Step::SendFeature(0),
            Step::SendFeature(1),
            Step::SendFeature(2),
            Step::RecvStats,
            Step::Done,
        ]
    );
    assert_eq!(seen.len(), n + 6);
}

#[test]
fn session_without_features() {
    let mut step = first_step();
    for _ in 0..4 {
        step = advance(step, 0);
    }
    assert_eq!(step, Step::RecvStats);
    assert_eq!(advance(Step::Done, 0), Step::Done);
}

#[test]
fn step_urls() {
    let host = "http://c".to_string();
    assert_eq!(step_url(Step::KeyExchange, &host), Some("http://c/v1/key_exchange".to_string()));
    assert_eq!(step_url(Step::RecvCompanyKeys, &host), Some("http://c/v1/recv_u_company_keys".to_string()));
    assert_eq!(step_url(Step::SendCompanyKeys, &host), Some("http://c/v1/send_e_company_keys".to_string()));
    assert_eq!(step_url(Step::SendPartnerKeys, &host), Some("http://c/v1/send_u_partner_keys".to_string()));
    assert_eq!(step_url(Step::SendFeature(7), &host), Some("http://c/v1/send_u_partner_feature".to_string()));
    assert_eq!(step_url(Step::RecvStats, &host), Some("http://c/v1/recv_stats".to_string()));
    assert_eq!(step_url(Step::Done, &host), None);
}

#[test]
fn ordinary_buffers_are_encodable() {
    assert!(buffers_encodable(&vec![bb(&[1, 2, 3]), bb(&[])]));
    assert!(buffers_encodable(&Vec::new()));
}

#[test]
fn base64_full_group() {
    let texts = encode_payload_texts(&vec![vec![1u8, 2, 3], vec![0xffu8, 0xfe, 0xfd, 0xfc]]);
    assert_eq!(texts, vec!["AQID".to_string(), "//79/A==".to_string()]);
}
