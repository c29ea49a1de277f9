//! The server session: a lobby that gathers players, then the tick loop
//! that feeds the game and broadcasts its snapshots.

use vstd::prelude::*;
use crate::gameplay::GameplayHost;
use crate::transport::{
    any_interface, outgoing_views, DeliveryMode, Envelope, Outgoing, OutgoingView, PeerAddress,
};
use crate::wire::{encoding, Color};
pub use crate::wire::Packet;

verus! {

/// A joined player.
#[derive(Clone, Copy, Debug, PartialEq, Eq, Structural)]
pub struct Player {
    pub id: usize,
    pub addr: PeerAddress,
    pub color: Color,
}

impl Player {
    pub fn new(id: usize, addr: PeerAddress, color: Color) -> (player: Player)
        ensures
            player == (Player { id, addr, color }),
    {
        Player { id, addr, color }
    }
}

/// Settings of a server session.
#[derive(Clone, Copy, Debug, PartialEq, Eq, Structural)]
pub struct LobbyConfig {
    pub min_players: usize,
    pub port: u16,
}

/// Phase of a server session.
#[derive(Clone, Copy, Debug, PartialEq, Eq, Structural)]
pub enum LobbyState {
    Setup,
    Pending,
    Gameplay,
    Finished,
}

/// A server session without its transport.
pub struct Lobby {
    players: Vec<Player>,
    state: LobbyState,
    config: LobbyConfig,
}

/// What a `Lobby` holds. Player `i` of the roster is the `i`-th that joined.
pub struct LobbyView {
    pub roster: Seq<Player>,
    pub state: LobbyState,
    pub config: LobbyConfig,
}

impl View for Lobby {
    type V = LobbyView;

    closed spec fn view(&self) -> LobbyView {
        LobbyView { roster: self.players@, state: self.state, config: self.config }
    }
}

/// One message for every roster member, in roster order, all with the same
/// delivery mode and payload.
pub open spec fn fan_out(roster: Seq<Player>, mode: DeliveryMode, payload: Seq<u8>) -> Seq<
    OutgoingView,
> {
    Seq::new(roster.len(), |i: int| OutgoingView { dest: roster[i].addr, mode, payload })
}

/// The id that the address index holds for `addr`: that of the player who
/// joined last from it.
pub open spec fn latest_id(roster: Seq<Player>, addr: PeerAddress) -> Option<usize>
    decreases roster.len(),
{
    if roster.len() == 0 {
        None
    } else if roster.last().addr == addr {
        Some(roster.last().id)
    } else {
        latest_id(roster.drop_last(), addr)
    }
}

impl LobbyView {
    /// A session as it is created.
    pub open spec fn initial(config: LobbyConfig) -> LobbyView {
        LobbyView { roster: Seq::empty(), state: LobbyState::Setup, config }
    }

    /// Ids were given out in join order starting at 1, no more players
    /// joined than the session waits for, the game runs only with a full
    /// roster, and no session is ever finished.
    pub open spec fn wf(self) -> bool {
        &&& forall|i: int| 0 <= i < self.roster.len() ==> (#[trigger] self.roster[i]).id == i + 1
        &&& self.roster.len() <= self.config.min_players
        &&& self.state is Setup ==> self.roster.len() == 0
        &&& self.state is Gameplay ==> self.roster.len() == self.config.min_players
        &&& !(self.state is Finished)
    }

    /// Whether the session still waits for players.
    pub open spec fn waiting(self) -> bool {
        self.state is Pending && self.roster.len() < self.config.min_players
    }

    /// Whether `packet` makes its sender a player.
    pub open spec fn admits(self, packet: Packet) -> bool {
        self.waiting() && packet is Join
    }

    /// The session after `Setup`: waiting for players.
    pub open spec fn opened(self) -> LobbyView {
        if self.state is Setup {
            LobbyView { state: LobbyState::Pending, ..self }
        } else {
            self
        }
    }

    /// The session after a packet from `source` was handled.
    pub open spec fn received(self, source: PeerAddress, packet: Packet) -> LobbyView {
        match packet {
            Packet::Join(color) if self.waiting() => LobbyView {
                roster: self.roster.push(
                    Player { id: (self.roster.len() + 1) as usize, addr: source, color },
                ),
                ..self
            },
            _ => self,
        }
    }

    /// What is sent after a packet was handled: when it made its sender a
    /// player, the new id to every player, the new one included.
    pub open spec fn announced(self, source: PeerAddress, packet: Packet) -> Seq<OutgoingView> {
        if self.admits(packet) {
            fan_out(
                self.received(source, packet).roster,
                DeliveryMode::ReliableOrdered,
                encoding(Packet::Joined((self.roster.len() + 1) as usize)),
            )
        } else {
            Seq::empty()
        }
    }

    /// Whether the game can start: players were waited for and all came.
    pub open spec fn ready(self) -> bool {
        self.state is Pending && self.roster.len() >= self.config.min_players
    }

    /// The session after the game was started.
    pub open spec fn started(self) -> LobbyView {
        if self.ready() {
            LobbyView { state: LobbyState::Gameplay, ..self }
        } else {
            self
        }
    }
}

impl Lobby {
    /// Every session is well formed, at all times.
    #[verifier::type_invariant]
    spec fn well_formed(&self) -> bool {
        self@.wf()
    }

    /// Creates a session that has not begun to wait for players.
    pub fn spawn(config: LobbyConfig) -> (lobby: Lobby)
        ensures
            lobby@ == LobbyView::initial(config),
            lobby@.wf(),
    {
        Lobby { players: Vec::new(), state: LobbyState::Setup, config }
    }

    /// The phase the session is in.
    pub fn state(&self) -> (state: LobbyState)
        ensures
            state == self@.state,
    {
        self.state
    }

    /// The settings the session was created with.
    pub fn config(&self) -> (config: LobbyConfig)
        ensures
            config == self@.config,
    {
        self.config
    }

    /// The roster, in join order.
    pub fn players(&self) -> (players: &Vec<Player>)
        ensures
            players@ == self@.roster,
            self@.wf(),
    {
        proof {
            use_type_invariant(self);
        }
        &self.players
    }

    /// The local address the server's transport binds to: every interface,
    /// on the configured port.
    pub fn bind_address(&self) -> (local: PeerAddress)
        ensures
            local == any_interface(self@.config.port),
    {
        PeerAddress::V4 { ip: 0, port: self.config.port }
    }

    /// Whether the session still waits for players.
    pub fn is_waiting(&self) -> (waiting: bool)
        ensures
            waiting == self@.waiting(),
    {
        matches!(self.state, LobbyState::Pending) && self.players.len() < self.config.min_players
    }

    /// Leaves `Setup` and begins to wait for players.
    pub fn wait_players(&mut self)
        ensures
            final(self)@ == old(self)@.opened(),
            final(self)@.wf(),
    {
        proof {
            use_type_invariant(&*self);
        }
        if matches!(self.state, LobbyState::Setup) {
            self.state = LobbyState::Pending;
        }
    }

    /// Builds one message with the given payload for every roster member.
    pub fn send_to_all(&self, mode: DeliveryMode, payload: &Vec<u8>) -> (batch: Vec<Outgoing>)
        ensures
            outgoing_views(batch@) == fan_out(self@.roster, mode, payload@),
    {
        let mut batch: Vec<Outgoing> = Vec::new();
        let mut i: usize = 0;
        while i < self.players.len()
            invariant
                i <= self.players.len(),
                batch.len() == i,
                outgoing_views(batch@) == fan_out(self.players@.take(i as int), mode, payload@),
            decreases self.players.len() - i,
        {
            let ghost sent = batch@;
            let copy = payload.clone();
            assert(copy@ =~= payload@);
            batch.push(Outgoing { dest: self.players[i].addr, mode, payload: copy });
            assert forall|j: int| 0 <= j <= i implies #[trigger] outgoing_views(batch@)[j]
                == fan_out(self.players@.take(i + 1), mode, payload@)[j] by {
                if j < i {
                    assert(batch@[j] == sent[j]);
                    assert(outgoing_views(sent)[j] == fan_out(
                        self.players@.take(i as int),
                        mode,
                        payload@,
                    )[j]);
                }
            }
            i += 1;
            assert(outgoing_views(batch@) =~= fan_out(
                self.players@.take(i as int),
                mode,
                payload@,
            ));
        }
        assert(self.players@.take(self.players.len() as int) =~= self.players@);
        batch
    }

    /// Handles a control message received while the session is set up or
    /// waits. A `Join` that arrives while players are waited for makes its
    /// sender the next player and is answered with the new id, sent to the
    /// whole roster. Anything else changes nothing and is answered with
    /// nothing.
    pub fn on_packet(&mut self, source: PeerAddress, packet: &Packet) -> (batch: Vec<Outgoing>)
        ensures
            final(self)@ == old(self)@.received(source, *packet),
            outgoing_views(batch@) == old(self)@.announced(source, *packet),
            final(self)@.wf(),
    {
        proof {
            use_type_invariant(&*self);
        }
        match packet {
            Packet::Join(color) => {
                if self.is_waiting() {
                    let id: usize = self.players.len() + 1;
                    // The roster is taken out, grown and put back, so that the
                    // session is well formed at every step.
                    let mut roster: Vec<Player> = Vec::new();
                    core::mem::swap(&mut roster, &mut self.players);
                    roster.push(Player::new(id, source, *color));
                    self.players = roster;
                    let payload = Packet::Joined(id).encode();
                    return self.send_to_all(DeliveryMode::ReliableOrdered, &payload);
                }
            },
            _ => {},
        }
        assert(outgoing_views(Seq::<Outgoing>::empty()) =~= Seq::<OutgoingView>::empty());
        Vec::new()
    }

    /// Starts the game when the roster is full: hands the roster to the
    /// host, by one call of `init`, and tells every player that the game
    /// started. Returns `None`, changes nothing and leaves the host alone
    /// when players are still missing or were never waited for.
    pub fn run_gameplay<G: GameplayHost>(&mut self, host: &mut G) -> (batch: Option<Vec<Outgoing>>)
        ensures
            final(self)@ == old(self)@.started(),
            final(self)@.wf(),
            batch is Some <==> old(self)@.ready(),
            batch matches Some(sent) ==> outgoing_views(sent@) == fan_out(
                old(self)@.roster,
                DeliveryMode::ReliableOrdered,
                encoding(Packet::GameStarted),
            ),
            old(self)@.ready() ==> exists|game: &mut G, roster: &Vec<Player>|
                {
                    &&& #[trigger] call_ensures(G::init, (game, roster), ())
                    &&& mut_ref_current(game) == *old(host)
                    &&& roster@ == old(self)@.roster
                    &&& mut_ref_future(game) == *final(host)
                },
            !old(self)@.ready() ==> *final(host) == *old(host),
    {
        proof {
            use_type_invariant(&*self);
        }
        if matches!(self.state, LobbyState::Pending) && self.players.len()
            >= self.config.min_players {
            self.state = LobbyState::Gameplay;
            host.init(&self.players);
            let payload = Packet::GameStarted.encode();
            Some(self.send_to_all(DeliveryMode::ReliableOrdered, &payload))
        } else {
            None
        }
    }

    /// Looks an address up in the address index.
    pub fn resolve(&self, addr: &PeerAddress) -> (id: Option<usize>)
        ensures
            id == latest_id(self@.roster, *addr),
    {
        let mut i: usize = self.players.len();
        assert(self.players@.take(i as int) =~= self.players@);
        while i > 0
            invariant
                i <= self.players.len(),
                latest_id(self.players@, *addr) == latest_id(self.players@.take(i as int), *addr),
            decreases i,
        {
            i -= 1;
            assert(self.players@.take(i + 1).drop_last() =~= self.players@.take(i as int));
            if self.players[i].addr == *addr {
                return Some(self.players[i].id);
            }
        }
        None
    }

    /// Finds the first payload of a batch whose sender never joined.
    /// Returns its position, or `None` when every sender is a player.
    pub fn first_stranger(&self, inbound: &Vec<Envelope>) -> (found: Option<usize>)
        ensures
            match found {
                Some(at) => {
                    &&& at < inbound.len()
                    &&& latest_id(self@.roster, inbound[at as int].source) is None
                    &&& forall|k: int|
                        0 <= k < at ==> latest_id(self@.roster, #[trigger] inbound[k].source)
                            is Some
                },
                None => forall|k: int|
                    0 <= k < inbound.len() ==> latest_id(
                        self@.roster,
                        #[trigger] inbound[k].source,
                    ) is Some,
            },
    {
        let mut at: usize = 0;
        while at < inbound.len()
            invariant
                at <= inbound.len(),
                forall|k: int|
                    0 <= k < at ==> latest_id(self@.roster, #[trigger] inbound[k].source) is Some,
            decreases inbound.len() - at,
        {
            if self.resolve(&inbound[at].source).is_none() {
                return Some(at);
            }
            at += 1;
        }
        None
    }

    /// Runs one tick of a running game: forwards every received payload to
    /// the host under the id of the player who sent it, lets the host
    /// advance, and addresses the snapshot it produced to every roster
    /// member, to be delivered sequenced so that a slow peer sees only the
    /// newest. Before the game runs, nothing is forwarded, nothing is sent,
    /// and the host stays as it is.
    ///
    /// While the game runs, the contract follows the host through the tick.
    /// `hosts` holds its states before the first payload and after each one.
    /// Every call of `on_packet` is one that the host's own contract admits
    /// for the sender and bytes at that place; one call of `update` with the
    /// roster follows, and the batch carries what it returned.
    pub fn tick<G: GameplayHost>(&self, host: &mut G, inbound: &Vec<Envelope>) -> (batch: Vec<
        Outgoing,
    >)
        requires
            self@.state is Gameplay ==> forall|k: int|
                0 <= k < inbound.len() ==> latest_id(self@.roster, #[trigger] inbound[k].source)
                    is Some,
        ensures
            !(self@.state is Gameplay) ==> {
                &&& batch@.len() == 0
                &&& *final(host) == *old(host)
            },
            self@.state is Gameplay ==> exists|hosts: Seq<G>, snapshot: Vec<u8>|
                #![trigger hosts.len(), snapshot@]
                {
                    &&& hosts.len() == inbound.len() + 1
                    &&& hosts[0] == *old(host)
                    &&& forall|k: int|
                        #![trigger hosts[k]]
                        0 <= k < inbound.len() ==> exists|
                            game: &mut G,
                            sender: usize,
                            payload: &[u8],
                        |
                            {
                                &&& #[trigger] call_ensures(
                                    G::on_packet,
                                    (game, sender, payload),
                                    (),
                                )
                                &&& mut_ref_current(game) == hosts[k]
                                &&& Some(sender) == latest_id(self@.roster, inbound[k].source)
                                &&& payload@ == inbound[k].payload@
                                &&& mut_ref_future(game) == hosts[k + 1]
                            }
                    &&& exists|game: &mut G, roster: &Vec<Player>|
                        {
                            &&& #[trigger] call_ensures(G::update, (game, roster), snapshot)
                            &&& mut_ref_current(game) == hosts.last()
                            &&& roster@ == self@.roster
                            &&& mut_ref_future(game) == *final(host)
                        }
                    &&& outgoing_views(batch@) == fan_out(
                        self@.roster,
                        DeliveryMode::ReliableSequenced,
                        snapshot@,
                    )
                },
    {
        if !matches!(self.state, LobbyState::Gameplay) {
            return Vec::new();
        }
        let ghost mut hosts: Seq<G> = seq![*host];
        let mut k: usize = 0;
        while k < inbound.len()
            invariant
                k <= inbound.len(),
                hosts.len() == k + 1,
                hosts[0] == *old(host),
                hosts[k as int] == *host,
                forall|j: int|
                    0 <= j < inbound.len() ==> latest_id(
                        self@.roster,
                        #[trigger] inbound[j].source,
                    ) is Some,
                forall|j: int|
                    #![trigger hosts[j]]
                    0 <= j < k ==> exists|game: &mut G, sender: usize, payload: &[u8]|
                        {
                            &&& #[trigger] call_ensures(G::on_packet, (game, sender, payload), ())
                            &&& mut_ref_current(game) == hosts[j]
                            &&& Some(sender) == latest_id(self@.roster, inbound[j].source)
                            &&& payload@ == inbound[j].payload@
                            &&& mut_ref_future(game) == hosts[j + 1]
                        },
            decreases inbound.len() - k,
        {
            match self.resolve(&inbound[k].source) {
                Some(id) => host.on_packet(id, inbound[k].payload.as_slice()),
                None => vstd::pervasive::unreached(),
            }
            proof {
                hosts = hosts.push(*host);
            }
            k += 1;
        }
        let snapshot = host.update(&self.players);
        let batch = self.send_to_all(DeliveryMode::ReliableSequenced, &snapshot);
        assert(hosts.len() == inbound.len() + 1 && outgoing_views(batch@) == fan_out(
            self@.roster,
            DeliveryMode::ReliableSequenced,
            snapshot@,
        ));
        batch
    }
}

/// A broadcast reaches every roster member, each exactly once: it holds as
/// many messages as the roster holds players, the `i`-th addressed to the
/// `i`-th player, all alike in mode and payload.
pub proof fn lemma_fan_out_reaches_everyone(
    roster: Seq<Player>,
    mode: DeliveryMode,
    payload: Seq<u8>,
)
    ensures
        fan_out(roster, mode, payload).len() == roster.len(),
        forall|i: int|
            0 <= i < roster.len() ==> #[trigger] fan_out(roster, mode, payload)[i] == (
            OutgoingView { dest: roster[i].addr, mode, payload }),
{
}

/// While players are waited for, a `Join` makes its sender the next player,
/// with the roster size after the join as id, and the id is announced to
/// every player of the grown roster, not to the new one alone.
pub proof fn lemma_join_is_announced_to_all(pre: LobbyView, source: PeerAddress, color: Color)
    requires
        pre.wf(),
        pre.waiting(),
    ensures
        ({
            let post = pre.received(source, Packet::Join(color));
            let sent = pre.announced(source, Packet::Join(color));
            let id = (pre.roster.len() + 1) as usize;
            &&& post.roster == pre.roster.push(Player { id, addr: source, color })
            &&& id == post.roster.len()
            &&& post.state == pre.state
            &&& sent.len() == post.roster.len()
            &&& forall|i: int|
                0 <= i < post.roster.len() ==> #[trigger] sent[i] == (OutgoingView {
                    dest: post.roster[i].addr,
                    mode: DeliveryMode::ReliableOrdered,
                    payload: encoding(Packet::Joined(id)),
                })
        }),
{
}

/// In a session that waits for at least one player, the first `Join` makes
/// its sender player 1 and is answered by exactly one message: `Joined(1)`,
/// to the joiner.
pub proof fn lemma_first_joiner_gets_id_one(config: LobbyConfig, source: PeerAddress, color: Color)
    requires
        config.min_players >= 1,
    ensures
        ({
            let pre = LobbyView::initial(config).opened();
            let post = pre.received(source, Packet::Join(color));
            &&& post.roster == seq![Player { id: 1, addr: source, color }]
            &&& pre.announced(source, Packet::Join(color)) == seq![
                OutgoingView {
                    dest: source,
                    mode: DeliveryMode::ReliableOrdered,
                    payload: encoding(Packet::Joined(1)),
                },
            ]
            &&& config.min_players == 1 ==> post.ready()
            &&& config.min_players > 1 ==> !post.ready() && post.waiting()
        }),
{
    let pre = LobbyView::initial(config).opened();
    let post = pre.received(source, Packet::Join(color));
    assert(post.roster =~= seq![Player { id: 1, addr: source, color }]);
    assert(pre.announced(source, Packet::Join(color)) =~= seq![
        OutgoingView {
            dest: source,
            mode: DeliveryMode::ReliableOrdered,
            payload: encoding(Packet::Joined(1)),
        },
    ]);
}

/// Outside the waiting phase, or for any message but a `Join`, nothing is
/// recorded and nothing is sent.
pub proof fn lemma_other_packets_are_discarded(pre: LobbyView, source: PeerAddress, packet: Packet)
    requires
        !pre.admits(packet),
    ensures
        pre.received(source, packet) == pre,
        pre.announced(source, packet).len() == 0,
{
}

/// Ids are never reused and players never leave: in a well-formed session
/// no two players share an id, and every transition keeps the players that
/// were there, in their places.
pub proof fn lemma_roster_only_grows(pre: LobbyView, source: PeerAddress, packet: Packet)
    requires
        pre.wf(),
    ensures
        forall|i: int, j: int|
            0 <= i < j < pre.roster.len() ==> (#[trigger] pre.roster[i]).id < (
            #[trigger] pre.roster[j]).id,
        pre.roster.is_prefix_of(pre.received(source, packet).roster),
        pre.opened().roster == pre.roster,
        pre.started().roster == pre.roster,
{
}

/// Every transition keeps the session well formed.
pub proof fn lemma_transitions_keep_wf(pre: LobbyView, source: PeerAddress, packet: Packet)
    requires
        pre.wf(),
    ensures
        LobbyView::initial(pre.config).wf(),
        pre.opened().wf(),
        pre.received(source, packet).wf(),
        pre.started().wf(),
{
}

/// The game runs only with a full roster: a well-formed session in
/// `Gameplay` holds as many players as it waited for, and starting is
/// refused until that many have joined.
pub proof fn lemma_running_only_when_full(session: LobbyView)
    requires
        session.wf(),
    ensures
        session.state is Gameplay ==> session.roster.len() >= session.config.min_players,
        session.roster.len() < session.config.min_players ==> session.started() == session,
        session.started().state is Gameplay ==> session.started().roster.len()
            >= session.config.min_players,
{
}

/// The address index knows exactly the addresses that players joined from,
/// and what it holds for one is the id of a player who joined from it.
pub proof fn lemma_latest_id_is_a_player(roster: Seq<Player>, addr: PeerAddress)
    ensures
        latest_id(roster, addr) is Some <==> exists|i: int|
            0 <= i < roster.len() && (#[trigger] roster[i]).addr == addr,
        latest_id(roster, addr) matches Some(id) ==> exists|i: int|
            0 <= i < roster.len() && (#[trigger] roster[i]).addr == addr && roster[i].id == id,
    decreases roster.len(),
{
    if roster.len() > 0 {
        let earlier = roster.drop_last();
        lemma_latest_id_is_a_player(earlier, addr);
        if roster.last().addr == addr {
            assert(roster[roster.len() - 1].addr == addr);
        } else {
            if latest_id(earlier, addr) is Some {
                let i = choose|i: int|
                    0 <= i < earlier.len() && (#[trigger] earlier[i]).addr == addr && earlier[i].id
                        == latest_id(earlier, addr).unwrap();
                assert(roster[i] == earlier[i]);
            }
            if exists|i: int| 0 <= i < roster.len() && (#[trigger] roster[i]).addr == addr {
                let i = choose|i: int| 0 <= i < roster.len() && (#[trigger] roster[i]).addr == addr;
                assert(earlier[i] == roster[i]);
            }
        }
    }
}

} // verus!
