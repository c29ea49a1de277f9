use litio::client::{ClientState, Session};
use litio::gameplay::{GameplayClient, GameplayHost};
use litio::server::{Lobby, LobbyConfig, LobbyState, Player};
use litio::transport::{deliver, ConnectionEvent, DeliveryMode, Envelope, Outgoing, PeerAddress};
use litio::wire::{Color, Packet};

const SERVER: PeerAddress = PeerAddress::V4 { ip: 0x7f00_0001, port: 20016 };

fn peer(port: u16) -> PeerAddress {
    PeerAddress::V4 { ip: 0x7f00_0001, port }
}

struct Idle;

impl GameplayHost for Idle {
    fn init(&mut self, _players: &Vec<Player>) {}

    fn on_packet(&mut self, _sender: usize, _payload: &[u8]) {}

    fn update(&mut self, _players: &Vec<Player>) -> Vec<u8> {
        vec![]
    }
}

struct Started(Option<(usize, PeerAddress)>);

impl GameplayClient for Started {
    type Event = ();
    type Display = ();

    fn init(&mut self, id: usize, server: PeerAddress) {
        self.0 = Some((id, server));
    }

    fn on_event(&mut self, _event: &(), _display: &mut ()) {}

    fn on_packet(&mut self, _payload: &[u8], _display: &mut ()) {}

    fn update(&mut self, _display: &mut ()) -> Option<Vec<u8>> {
        None
    }
}

/// Carries a message over a perfect wire: returns the event its receiver sees.
fn carry(from: PeerAddress, message: &Outgoing) -> ConnectionEvent {
    ConnectionEvent::Message(Envelope { source: from, payload: message.payload.clone() })
}

#[test]
fn single_player_joins_and_plays() {
    let mut lobby = Lobby::spawn(LobbyConfig { min_players: 1, port: 20016 });
    lobby.wait_players();
    let mut session = Session::new(SERVER);
    let mut game = Started(None);

    let request = session.join(Color { r: 1, g: 2, b: 3 }).unwrap();
    assert_eq!(request.dest, SERVER);
    let (source, packet) = deliver(&carry(peer(5000), &request)).unwrap();
    assert_eq!(packet, Packet::Join(Color { r: 1, g: 2, b: 3 }));
    let answers = lobby.on_packet(source, &packet);
    assert_eq!(answers.len(), 1);
    assert_eq!(answers[0].dest, peer(5000));
    assert_eq!(answers[0].mode, DeliveryMode::ReliableOrdered);

    let (_, answer) = deliver(&carry(SERVER, &answers[0])).unwrap();
    assert_eq!(answer, Packet::Joined(1));
    session.on_packet(&answer);
    assert_eq!(session.state(), ClientState::Joining);
    assert_eq!(session.player_id(), 1);
    session.wait_start();
    assert_eq!(session.state(), ClientState::Joined);
    assert_eq!(lobby.state(), LobbyState::Pending);

    let started = lobby.run_gameplay(&mut Idle).unwrap();
    assert_eq!(lobby.state(), LobbyState::Gameplay);
    assert_eq!(started.len(), 1);
    let (_, start) = deliver(&carry(SERVER, &started[0])).unwrap();
    session.on_packet(&start);
    assert_eq!(session.state(), ClientState::Joined);
    assert_eq!(game.0, None);
    session.run(&mut game);
    assert_eq!(session.state(), ClientState::Playing);
    assert_eq!(game.0, Some((1, SERVER)));
}

#[test]
fn second_joiner_takes_the_last_announcement() {
    let mut lobby = Lobby::spawn(LobbyConfig { min_players: 2, port: 20016 });
    lobby.wait_players();
    let mut first = Session::new(SERVER);
    let mut second = Session::new(SERVER);

    let request = first.join(Color { r: 0, g: 0, b: 0 }).unwrap();
    let (source, packet) = deliver(&carry(peer(1), &request)).unwrap();
    for answer in lobby.on_packet(source, &packet) {
        assert_eq!(answer.dest, peer(1));
        first.on_packet(&deliver(&carry(SERVER, &answer)).unwrap().1);
    }
    assert_eq!(first.player_id(), 1);
    first.wait_start();

    let request = second.join(Color { r: 9, g: 9, b: 9 }).unwrap();
    let (source, packet) = deliver(&carry(peer(2), &request)).unwrap();
    let answers = lobby.on_packet(source, &packet);
    assert_eq!(answers.iter().map(|m| m.dest).collect::<Vec<_>>(), vec![peer(1), peer(2)]);
    first.on_packet(&deliver(&carry(SERVER, &answers[0])).unwrap().1);
    second.on_packet(&deliver(&carry(SERVER, &answers[1])).unwrap().1);
    second.wait_start();
    assert_eq!(first.player_id(), 1);
    assert_eq!(first.state(), ClientState::Joined);
    assert_eq!(second.player_id(), 2);
    assert_eq!(second.state(), ClientState::Joined);
}
