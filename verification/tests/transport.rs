use flow_raft::transport::{
    accept_reply, frame_bytes, frame_json, read_header, reply_frame, reply_status, request_frame,
    serve_decision, serve_frame, RpcKind, ServeAction, TcpNetworkFactory, WireResponse, STATUS_ERR, STATUS_OK,
    TAG_APPEND_ENTRIES, TAG_INSTALL_SNAPSHOT, TAG_VOTE,
};

type Reply = WireResponse<u8, u16, u32>;

#[test]
fn frames_carry_tag_length_and_body() {
    let f = frame_bytes(7, &vec![0xaa, 0xbb, 0xcc]);
    assert_eq!(f, vec![7, 0, 0, 0, 3, 0xaa, 0xbb, 0xcc]);
    let big: Vec<u8> = vec![1; 0x0102_03];
    let g = frame_bytes(2, &big);
    assert_eq!(&g[..5], &[2, 0x00, 0x01, 0x02, 0x03]);
    assert_eq!(g.len(), 5 + big.len());
    assert_eq!(read_header(&g), Some((2, 0x0102_03)));
    assert_eq!(read_header(&vec![1, 2, 3]), None);
}

#[test]
fn request_frames_read_back() {
    let json = b"{\"vote\":1}".to_vec();
    let f = request_frame(RpcKind::Vote, &json).unwrap();
    let (tag, len) = read_header(&f).unwrap();
    assert_eq!(tag, TAG_VOTE);
    assert_eq!(len as usize, f.len() - 5);
    let body = f[5..].to_vec();
    assert_ne!(body, json);
    assert_eq!(frame_json(&body).unwrap(), json);
    match serve_frame(tag, &body) {
        ServeAction::Handle(k, j) => {
            assert_eq!(k, RpcKind::Vote);
            assert_eq!(j, json);
        }
        ServeAction::Reject(m) => panic!("rejected: {}", m),
    }
}

#[test]
fn reply_frames_read_back() {
    let json = b"{\"Err\":\"x\"}".to_vec();
    let f = reply_frame(STATUS_ERR, &json).unwrap();
    assert_eq!(f[0], STATUS_ERR);
    assert_eq!(frame_json(&f[5..].to_vec()).unwrap(), json);
    assert_eq!(reply_status(true), STATUS_OK);
    assert_eq!(reply_status(false), STATUS_ERR);
}

#[test]
fn unknown_tags_are_rejected() {
    match serve_frame(9, &vec![]) {
        ServeAction::Reject(m) => assert_eq!(m, "unknown tag"),
        _ => panic!("expected a rejection"),
    }
    assert_eq!(RpcKind::from_tag(TAG_APPEND_ENTRIES), Some(RpcKind::AppendEntries));
    assert_eq!(RpcKind::from_tag(TAG_INSTALL_SNAPSHOT), Some(RpcKind::InstallSnapshot));
    assert_eq!(RpcKind::from_tag(0), None);
    assert_eq!(RpcKind::InstallSnapshot.tag(), 3);
}

#[test]
fn replies_are_checked_against_the_request() {
    let ok: Result<Reply, String> = accept_reply(STATUS_OK, WireResponse::Vote(5), RpcKind::Vote);
    assert!(matches!(ok, Ok(WireResponse::Vote(5))));
    let wrong: Result<Reply, String> = accept_reply(STATUS_OK, WireResponse::AppendEntries(1), RpcKind::Vote);
    assert_eq!(wrong.unwrap_err(), "unexpected response type");
    let failed: Result<Reply, String> =
        accept_reply(STATUS_ERR, WireResponse::Failure("no leader".to_string()), RpcKind::Vote);
    assert_eq!(failed.unwrap_err(), "no leader");
    let odd: Result<Reply, String> = accept_reply(STATUS_ERR, WireResponse::Vote(1), RpcKind::Vote);
    assert_eq!(odd.unwrap_err(), "remote error");
    let err_ok: Result<Reply, String> =
        accept_reply(STATUS_OK, WireResponse::Failure("x".to_string()), RpcKind::InstallSnapshot);
    assert_eq!(err_ok.unwrap_err(), "unexpected response type");
}

#[test]
fn test_create_network_client() {
    let f = TcpNetworkFactory::new();
    let n = f.new_client("127.0.0.1:5011".to_string());
    assert_eq!(n.address(), "127.0.0.1:5011");
}

#[test]
fn address_book_keeps_last_entry() {
    let book = flow_raft::transport::tcp_nodes(vec![
        (1, "a:1".to_string()),
        (2, "b:2".to_string()),
        (1, "c:3".to_string()),
    ]);
    assert_eq!(book.len(), 2);
    assert_eq!(book.get(&1).map(|s| s.as_str()), Some("c:3"));
    assert_eq!(book.get(&2).map(|s| s.as_str()), Some("b:2"));
}

#[test]
fn test_memory_network_factory_new() {
    let f: flow_raft::memory::MemoryNetworkFactory<&str> = flow_raft::memory::MemoryNetworkFactory::new();
    assert!(f.target(1).is_none());
}

#[test]
fn test_memory_network_factory_new_client() {
    let mut f = flow_raft::memory::MemoryNetworkFactory::new();
    f.register_raft(1, "node-1");
    f.register_raft(2, "node-2");
    assert_eq!(f.target(1), Some(&"node-1"));
    let c = f.new_client(2);
    assert_eq!(c.target, 2);
    f.unregister_raft(1);
    assert!(f.target(1).is_none());
    assert_eq!(f.target(2), Some(&"node-2"));
}

#[test]
fn archives_are_laid_out_as_stated() {
    let f = request_frame(RpcKind::Vote, &vec![1, 2, 3]).unwrap();
    assert_eq!(f, vec![2, 0, 0, 0, 12, 1, 2, 3, 0, 0xFC, 0xFF, 0xFF, 0xFF, 3, 0, 0, 0]);
    let g = reply_frame(STATUS_OK, &vec![9, 8, 7, 6]).unwrap();
    assert_eq!(g, vec![0, 0, 0, 0, 12, 9, 8, 7, 6, 0xFC, 0xFF, 0xFF, 0xFF, 4, 0, 0, 0]);
    let e = request_frame(RpcKind::AppendEntries, &vec![]).unwrap();
    assert_eq!(e, vec![1, 0, 0, 0, 8, 0, 0, 0, 0, 0, 0, 0, 0]);
}

#[test]
fn read_bodies_decide_the_answer() {
    match serve_decision(RpcKind::InstallSnapshot, Ok(vec![1, 2])) {
        ServeAction::Handle(k, j) => {
            assert_eq!(k, RpcKind::InstallSnapshot);
            assert_eq!(j, vec![1, 2]);
        }
        ServeAction::Reject(m) => panic!("rejected: {}", m),
    }
    match serve_decision(RpcKind::Vote, Err("bad archive".to_string())) {
        ServeAction::Reject(m) => assert_eq!(m, "bad archive"),
        _ => panic!("expected a rejection"),
    }
}

#[test]
fn every_kind_reads_back_from_its_tag() {
    for k in [RpcKind::AppendEntries, RpcKind::Vote, RpcKind::InstallSnapshot] {
        assert_eq!(RpcKind::from_tag(k.tag()), Some(k));
    }
}
