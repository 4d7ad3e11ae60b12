use witnet_rad::chain_errors::ChainHash;
use witnet_rad::session::{
    handle_message, handshake_verack, handshake_version, try_consolidate_session, Address, Command,
    ConnectOutcome, ConnectionsManager, HandshakeFlags, InvVector, Outgoing, Session, SessionAction,
    SessionStatus, SessionType,
};

fn addr(port: u16) -> Address {
    Address { ip: 0x7f00_0001, port }
}

fn fresh(session_type: SessionType) -> Session {
    Session {
        session_type,
        status: SessionStatus::Unconsolidated,
        handshake_flags: HandshakeFlags::default(),
        remote_sender_addr: None,
        server_addr: addr(50000),
        remote_addr: addr(40000),
    }
}

#[test]
fn version_is_answered_with_verack_and_version_once() {
    let mut s = fresh(SessionType::Inbound);
    let replies = handshake_version(&mut s, &addr(21337));
    assert_eq!(
        replies,
        vec![
            Outgoing::Verack,
            Outgoing::Version { sender: addr(50000), receiver: addr(40000), last_epoch: 0 }
        ]
    );
    assert_eq!(s.remote_sender_addr, Some(addr(21337)));
    assert!(s.handshake_flags.version_rx);
    assert!(!try_consolidate_session(&s));
    assert_eq!(handshake_version(&mut s, &addr(21337)), vec![]);
}

#[test]
fn verack_completes_the_handshake() {
    let mut s = fresh(SessionType::Outbound);
    handshake_version(&mut s, &addr(1));
    handshake_verack(&mut s);
    assert!(s.handshake_flags.verack_rx);
    assert!(try_consolidate_session(&s));
}

#[test]
fn messages_are_dispatched_by_status_and_type() {
    let mut s = fresh(SessionType::Inbound);
    let action = handle_message(&mut s, &Command::Version { sender_address: addr(7) });
    assert!(matches!(action, SessionAction::Handshake { consolidate: false, .. }));
    let action = handle_message(&mut s, &Command::Verack);
    assert_eq!(action, SessionAction::Handshake { replies: vec![], consolidate: true });
    assert_eq!(handle_message(&mut s, &Command::GetPeers), SessionAction::NotSupported);

    s.status = SessionStatus::Consolidated;
    assert_eq!(handle_message(&mut s, &Command::GetPeers), SessionAction::SharePeers);
    assert_eq!(
        handle_message(&mut s, &Command::Peers { peers: vec![addr(3)] }),
        SessionAction::NotSupported
    );
    s.session_type = SessionType::Outbound;
    assert_eq!(
        handle_message(&mut s, &Command::Peers { peers: vec![addr(3)] }),
        SessionAction::AddPeers { peers: vec![addr(3)] }
    );
    let h = ChainHash { sha256: [7u8; 32] };
    let inventory = vec![InvVector::Block(h), InvVector::Error(1), InvVector::Tx(h)];
    assert_eq!(
        handle_message(&mut s, &Command::GetData { inventory }),
        SessionAction::SendItems { hashes: vec![h, h] }
    );
}

#[test]
fn only_successful_connections_open_sessions() {
    assert_eq!(
        ConnectionsManager::process_connect_addr_response(ConnectOutcome::Connected),
        Some(SessionType::Outbound)
    );
    assert_eq!(ConnectionsManager::process_connect_addr_response(ConnectOutcome::ResolverFailed), None);
    assert_eq!(ConnectionsManager::inbound_session_type(), SessionType::Inbound);
}
