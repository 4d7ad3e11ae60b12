use vstd::prelude::*;

use crate::chain_errors::ChainHash;

verus! {

/// Who opened the connection.
#[derive(Debug, Clone, Copy, PartialEq, Eq, Structural)]
pub enum SessionType {
    Inbound,
    Outbound,
}

/// Whether the handshake of a session has completed and been registered.
#[derive(Debug, Clone, Copy, PartialEq, Eq, Structural)]
pub enum SessionStatus {
    Unconsolidated,
    Consolidated,
}

/// A peer's network address.
#[derive(Debug, Clone, Copy, PartialEq, Eq, Structural)]
pub struct Address {
    /// An IPv4 address sits in the low 32 bits.
    pub ip: u128,
    pub port: u16,
}

/// Which handshake messages have been sent and received.
#[derive(Debug, Clone, Copy, PartialEq, Eq, Structural, Default)]
pub struct HandshakeFlags {
    pub version_tx: bool,
    pub version_rx: bool,
    pub verack_tx: bool,
    pub verack_rx: bool,
}

impl HandshakeFlags {
    /// All four handshake messages have gone both ways.
    pub open spec fn spec_all_true(self) -> bool {
        self.version_tx && self.version_rx && self.verack_tx && self.verack_rx
    }

    /// Whether all four handshake messages have gone both ways.
    pub fn all_true(&self) -> (r: bool)
        ensures
            r == self.spec_all_true(),
    {
        self.version_tx && self.version_rx && self.verack_tx && self.verack_rx
    }
}

/// The state of a connection with one peer.
#[derive(Debug, Clone, Copy, PartialEq, Eq, Structural)]
pub struct Session {
    pub session_type: SessionType,
    pub status: SessionStatus,
    pub handshake_flags: HandshakeFlags,
    /// The address that the peer announced in its version message.
    pub remote_sender_addr: Option<Address>,
    /// This node's listening address.
    pub server_addr: Address,
    /// The address of the other end of the connection.
    pub remote_addr: Address,
}

/// A handshake message for the peer.
#[derive(Debug, Clone, Copy, PartialEq, Eq, Structural)]
pub enum Outgoing {
    Verack,
    Version { sender: Address, receiver: Address, last_epoch: u32 },
}

/// An entry of an inventory.
#[derive(Debug, Clone, Copy, PartialEq, Eq)]
pub enum InvVector {
    Block(ChainHash),
    Tx(ChainHash),
    DataRequest(ChainHash),
    DataResult(ChainHash),
    Error(u32),
}

/// A message received from the peer, as far as a session reads it.
#[derive(Debug, Clone, PartialEq, Eq)]
pub enum Command {
    Version { sender_address: Address },
    Verack,
    GetPeers,
    Peers { peers: Vec<Address> },
    GetData { inventory: Vec<InvVector> },
    /// Any other message.
    Other,
}

/// What a session does in answer to a received message.
#[derive(Debug, Clone, PartialEq, Eq)]
pub enum SessionAction {
    /// Answer the handshake with these messages, then consolidate if the handshake is done.
    Handshake { replies: Vec<Outgoing>, consolidate: bool },
    /// Ask the peers manager for addresses to send to the peer.
    SharePeers,
    /// Hand the announced addresses to the peers manager.
    AddPeers { peers: Vec<Address> },
    /// Look up these items in storage and send them.
    SendItems { hashes: Vec<ChainHash> },
    /// The message is not expected in this state.
    NotSupported,
}

/// What a received verack does to a session.
pub fn handshake_verack(session: &mut Session)
    ensures
        *final(session) == (Session {
            handshake_flags: HandshakeFlags { verack_rx: true, ..old(session).handshake_flags },
            ..*old(session)
        }),
{
    session.handshake_flags.verack_rx = true;
}

/// The replies owed to a version message, given the flags before it.
pub open spec fn version_replies(s: Session) -> Seq<Outgoing> {
    (if !s.handshake_flags.verack_tx {
        seq![Outgoing::Verack]
    } else {
        Seq::empty()
    }) + (if !s.handshake_flags.version_tx {
        seq![Outgoing::Version { sender: s.server_addr, receiver: s.remote_addr, last_epoch: 0 }]
    } else {
        Seq::empty()
    })
}

/// What a received version message does to a session: it records the peer's announced
/// address, and answers with a verack and a version of its own where not yet sent.
pub fn handshake_version(session: &mut Session, sender_address: &Address) -> (r: Vec<Outgoing>)
    ensures
        r@ == version_replies(*old(session)),
        *final(session) == (Session {
            remote_sender_addr: Some(*sender_address),
            handshake_flags: HandshakeFlags {
                version_tx: true,
                version_rx: true,
                verack_tx: true,
                verack_rx: old(session).handshake_flags.verack_rx,
            },
            ..*old(session)
        }),
{
    session.remote_sender_addr = Some(*sender_address);
    session.handshake_flags.version_rx = true;
    let mut responses: Vec<Outgoing> = Vec::new();
    if !session.handshake_flags.verack_tx {
        session.handshake_flags.verack_tx = true;
        responses.push(Outgoing::Verack);
    }
    if !session.handshake_flags.version_tx {
        session.handshake_flags.version_tx = true;
        responses.push(
            Outgoing::Version {
                sender: session.server_addr,
                receiver: session.remote_addr,
                last_epoch: 0,
            },
        );
    }
    assert(responses@ =~= version_replies(*old(session)));
    responses
}

/// Whether the handshake is complete and the peer's address known, so that the session
/// can be registered as consolidated.
pub fn try_consolidate_session(session: &Session) -> (r: bool)
    ensures
        r == (session.handshake_flags.spec_all_true() && session.remote_sender_addr is Some),
{
    session.handshake_flags.all_true() && session.remote_sender_addr.is_some()
}

/// What the sessions manager's answer to a consolidation request does to a session: the
/// session is consolidated if it was accepted; otherwise it is to be stopped (`false`).
pub fn update_consolidate(session: &mut Session, accepted: bool) -> (r: bool)
    ensures
        r == accepted,
        accepted ==> *final(session) == (Session {
            status: SessionStatus::Consolidated,
            ..*old(session)
        }),
        !accepted ==> *final(session) == *old(session),
{
    if accepted {
        session.status = SessionStatus::Consolidated;
    }
    accepted
}

/// The hashes of the items of an inventory, in order, without its error entries.
pub open spec fn requested_hashes(inv: Seq<InvVector>) -> Seq<ChainHash>
    decreases inv.len(),
{
    if inv.len() == 0 {
        Seq::empty()
    } else {
        let rest = requested_hashes(inv.drop_last());
        match inv.last() {
            InvVector::Block(h) => rest.push(h),
            InvVector::Tx(h) => rest.push(h),
            InvVector::DataRequest(h) => rest.push(h),
            InvVector::DataResult(h) => rest.push(h),
            InvVector::Error(_) => rest,
        }
    }
}

fn hashes_of(inventory: &Vec<InvVector>) -> (r: Vec<ChainHash>)
    ensures
        r@ == requested_hashes(inventory@),
{
    let mut out: Vec<ChainHash> = Vec::new();
    let mut i: usize = 0;
    while i < inventory.len()
        invariant
            i <= inventory@.len(),
            out@ == requested_hashes(inventory@.take(i as int)),
        decreases inventory@.len() - i,
    {
        assert(inventory@.take(i + 1).drop_last() =~= inventory@.take(i as int));
        match inventory[i] {
            InvVector::Block(h) => out.push(h),
            InvVector::Tx(h) => out.push(h),
            InvVector::DataRequest(h) => out.push(h),
            InvVector::DataResult(h) => out.push(h),
            InvVector::Error(_) => {},
        }
        i = i + 1;
    }
    assert(inventory@.take(inventory@.len() as int) =~= inventory@);
    out
}

/// What a session does with a received message, by its type, its status and the message:
/// the handshake while unconsolidated; peer discovery and data requests once consolidated,
/// where only outbound sessions take peer addresses.
pub fn handle_message(session: &mut Session, command: &Command) -> (r: SessionAction)
    ensures
        match (old(session).status, *command) {
            (SessionStatus::Unconsolidated, Command::Version { sender_address }) => {
                let s = Session {
                    remote_sender_addr: Some(sender_address),
                    handshake_flags: HandshakeFlags {
                        version_tx: true,
                        version_rx: true,
                        verack_tx: true,
                        verack_rx: old(session).handshake_flags.verack_rx,
                    },
                    ..*old(session)
                };
                &&& *final(session) == s
                &&& r matches SessionAction::Handshake { replies, consolidate } && replies@
                    == version_replies(*old(session)) && consolidate
                    == s.handshake_flags.spec_all_true()
            },
            (SessionStatus::Unconsolidated, Command::Verack) => {
                let s = Session {
                    handshake_flags: HandshakeFlags {
                        verack_rx: true,
                        ..old(session).handshake_flags
                    },
                    ..*old(session)
                };
                &&& *final(session) == s
                &&& r matches SessionAction::Handshake { replies, consolidate } && replies@.len()
                    == 0 && consolidate == (s.handshake_flags.spec_all_true()
                    && s.remote_sender_addr is Some)
            },
            (SessionStatus::Consolidated, Command::GetPeers) => {
                &&& *final(session) == *old(session)
                &&& r == SessionAction::SharePeers
            },
            (SessionStatus::Consolidated, Command::Peers { peers }) => {
                &&& *final(session) == *old(session)
                &&& if old(session).session_type == SessionType::Outbound {
                    r matches SessionAction::AddPeers { peers: p } && p@ == peers@
                } else {
                    r == SessionAction::NotSupported
                }
            },
            (SessionStatus::Consolidated, Command::GetData { inventory }) => {
                &&& *final(session) == *old(session)
                &&& r matches SessionAction::SendItems { hashes } && hashes@ == requested_hashes(
                    inventory@,
                )
            },
            _ => {
                &&& *final(session) == *old(session)
                &&& r == SessionAction::NotSupported
            },
        },
{
    match (session.status, command) {
        (SessionStatus::Unconsolidated, Command::Version { sender_address }) => {
            let replies = handshake_version(session, sender_address);
            let consolidate = try_consolidate_session(session);
            SessionAction::Handshake { replies, consolidate }
        },
        (SessionStatus::Unconsolidated, Command::Verack) => {
            handshake_verack(session);
            let consolidate = try_consolidate_session(session);
            SessionAction::Handshake { replies: Vec::new(), consolidate }
        },
        (SessionStatus::Consolidated, Command::GetPeers) => SessionAction::SharePeers,
        (SessionStatus::Consolidated, Command::Peers { peers }) => {
            if session.session_type == SessionType::Outbound {
                let mut copy: Vec<Address> = Vec::new();
                let mut i: usize = 0;
                while i < peers.len()
                    invariant
                        i <= peers@.len(),
                        copy@ == peers@.take(i as int),
                    decreases peers@.len() - i,
                {
                    copy.push(peers[i]);
                    i = i + 1;
                    assert(copy@ =~= peers@.take(i as int));
                }
                assert(peers@.take(peers@.len() as int) =~= peers@);
                SessionAction::AddPeers { peers: copy }
            } else {
                SessionAction::NotSupported
            }
        },
        (SessionStatus::Consolidated, Command::GetData { inventory }) => {
            SessionAction::SendItems { hashes: hashes_of(inventory) }
        },
        _ => SessionAction::NotSupported,
    }
}

/// How a request to the resolver for an outbound connection ended.
#[derive(Debug, Clone, Copy, PartialEq, Eq, Structural)]
pub enum ConnectOutcome {
    /// A connection to the peer was made.
    Connected,
    /// The resolver could not connect to the peer.
    ResolverFailed,
    /// The resolver could not be reached.
    MailboxFailed,
}

/// Opens sessions for inbound and outbound connections.
#[derive(Debug, Clone, Copy, PartialEq, Eq, Structural, Default)]
pub struct ConnectionsManager;

impl ConnectionsManager {
    /// The session to open after a connection attempt: an outbound one when it succeeded.
    pub fn process_connect_addr_response(outcome: ConnectOutcome) -> (r: Option<SessionType>)
        ensures
            r == (if outcome == ConnectOutcome::Connected {
                Some(SessionType::Outbound)
            } else {
                None
            }),
    {
        match outcome {
            ConnectOutcome::Connected => Some(SessionType::Outbound),
            _ => None,
        }
    }

    /// The session to open for a connection that a peer made to this node.
    pub fn inbound_session_type() -> (r: SessionType)
        ensures
            r == SessionType::Inbound,
    {
        SessionType::Inbound
    }
}

} // verus!
