use http_tunnel::config::{parse_tunnel, Tunnel};
use http_tunnel::connector::{ConnectorAction, ConnectorEvent, ConnectorState};
use http_tunnel::handshake::HandshakeState;
use http_tunnel::session::{CopyEnd, Direction, SessionAction, SessionState};

/// What a relay between two in-memory peers leaves behind.
struct Relayed {
    at_server: Vec<u8>,
    at_client: Vec<u8>,
    actions: Vec<SessionAction>,
    session: SessionState,
}

/// Copies the client's chunks to the server and the server's chunks to the
/// client, one chunk of each in turn, and reports the end of each direction
/// to the session.
fn relay(from_client: &[&[u8]], from_server: &[&[u8]]) -> Relayed {
    let mut at_server = Vec::new();
    let mut at_client = Vec::new();
    let mut actions = Vec::new();
    let mut session = SessionState::start();
    let mut uploaded: u64 = 0;
    let mut downloaded: u64 = 0;
    let mut forward_open = true;
    let mut backward_open = true;
    let mut round = 0;
    while forward_open || backward_open {
        if forward_open {
            match from_client.get(round) {
                Some(chunk) => {
                    at_server.extend_from_slice(chunk);
                    uploaded += chunk.len() as u64;
                }
                None => {
                    forward_open = false;
                    let (next, action) = session.on_copy_end(CopyEnd::Eof {
                        direction: Direction::Forward,
                        bytes: uploaded,
                    });
                    session = next;
                    actions.push(action);
                }
            }
        }
        if backward_open {
            match from_server.get(round) {
                Some(chunk) => {
                    at_client.extend_from_slice(chunk);
                    downloaded += chunk.len() as u64;
                }
                None => {
                    backward_open = false;
                    let (next, action) = session.on_copy_end(CopyEnd::Eof {
                        direction: Direction::Backward,
                        bytes: downloaded,
                    });
                    session = next;
                    actions.push(action);
                }
            }
        }
        round += 1;
    }
    Relayed {
        at_server,
        at_client,
        actions,
        session,
    }
}

#[test]
fn direct_tunnel_relays_in_order() {
    let tunnel = parse_tunnel("2121:mail.example.com:21").unwrap();
    assert_eq!(
        tunnel,
        Tunnel {
            local_port: 2121,
            remote_host: "mail.example.com".into(),
            remote_port: 21
        }
    );

    // no proxy: the one dial goes to the remote host
    let state = ConnectorState::start(false);
    assert_eq!(state.action(), ConnectorAction::DialRemote);
    assert_eq!(tunnel.remote_addr(), ("mail.example.com", 21));
    let state = state.advance(ConnectorEvent::Connected);
    assert_eq!(state, ConnectorState::Ready { proxied: false });

    // and no byte of the server's stream is taken for a handshake
    let greeting: &[u8] = b"220 mail.example.com FTP ready\r\n";
    assert_eq!(HandshakeState::initial(false).read_from(greeting).consumed, 0);

    let from_client: Vec<&[u8]> = vec![b"USER anonymous\r\n", b"PASS guest\r\n", b"QUIT\r\n"];
    let from_server: Vec<&[u8]> = vec![
        greeting,
        b"331 Password required\r\n",
        b"230 Logged in\r\n",
        b"221 Bye\r\n",
    ];
    let relayed = relay(&from_client, &from_server);
    assert_eq!(relayed.at_server, from_client.concat());
    assert_eq!(relayed.at_client, from_server.concat());
    assert_eq!(
        relayed.actions,
        vec![
            SessionAction::HalfClose(Direction::Forward),
            SessionAction::CloseBoth
        ]
    );
    assert_eq!(
        relayed.session.result(),
        Some(Ok((from_client.concat().len() as u64, from_server.concat().len() as u64)))
    );
}

#[test]
fn relay_of_nothing_ends_cleanly() {
    let relayed = relay(&[], &[]);
    assert!(relayed.at_server.is_empty());
    assert!(relayed.at_client.is_empty());
    assert_eq!(relayed.session.result(), Some(Ok((0, 0))));
    assert_eq!(
        relayed.actions,
        vec![
            SessionAction::HalfClose(Direction::Forward),
            SessionAction::CloseBoth
        ]
    );
}

#[test]
fn server_closing_first_half_closes_backward() {
    let from_client: Vec<&[u8]> = vec![b"a", b"b", b"c"];
    let from_server: Vec<&[u8]> = vec![b"x"];
    let relayed = relay(&from_client, &from_server);
    assert_eq!(relayed.at_server, b"abc");
    assert_eq!(relayed.at_client, b"x");
    assert_eq!(
        relayed.actions,
        vec![
            SessionAction::HalfClose(Direction::Backward),
            SessionAction::CloseBoth
        ]
    );
    assert_eq!(relayed.session.result(), Some(Ok((3, 1))));
}
