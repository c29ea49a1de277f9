//! The client session: the join handshake, run once and strictly forward,
//! and the per-frame exchange with the game once it plays.

use vstd::prelude::*;
use crate::gameplay::GameplayClient;
use crate::transport::{DeliveryMode, Envelope, Outgoing, OutgoingView, PeerAddress};
use crate::wire::{encoding, Color, Packet};

verus! {

/// Phase of a client session.
#[derive(Clone, Copy, Debug, PartialEq, Eq, Structural)]
pub enum ClientState {
    Menu,
    Joining,
    Joined,
    Playing,
}

/// A client session without its transport and display.
pub struct Session {
    state: ClientState,
    player_id: usize,
    server: PeerAddress,
    admitted: bool,
    started: bool,
}

/// What a `Session` holds. `player_id` is 0 until the server gave one;
/// `admitted` tells that it did, `started` that the server announced the
/// start of the game.
pub struct SessionView {
    pub state: ClientState,
    pub player_id: usize,
    pub server: PeerAddress,
    pub admitted: bool,
    pub started: bool,
}

impl View for Session {
    type V = SessionView;

    closed spec fn view(&self) -> SessionView {
        SessionView {
            state: self.state,
            player_id: self.player_id,
            server: self.server,
            admitted: self.admitted,
            started: self.started,
        }
    }
}

/// Position of a phase in the handshake.
pub open spec fn rank(state: ClientState) -> nat {
    match state {
        ClientState::Menu => 0,
        ClientState::Joining => 1,
        ClientState::Joined => 2,
        ClientState::Playing => 3,
    }
}

impl SessionView {
    /// A session as it is created.
    pub open spec fn initial(server: PeerAddress) -> SessionView {
        SessionView {
            state: ClientState::Menu,
            player_id: 0,
            server,
            admitted: false,
            started: false,
        }
    }

    /// An id is held only from `Joining` on and always from `Joined` on; the
    /// start is known only from `Joined` on and always in `Playing`; without
    /// an id the session holds 0.
    pub open spec fn wf(self) -> bool {
        &&& self.admitted ==> !(self.state is Menu)
        &&& (self.state is Joined || self.state is Playing) ==> self.admitted
        &&& self.started ==> (self.state is Joined || self.state is Playing)
        &&& self.state is Playing ==> self.started
        &&& !self.admitted ==> self.player_id == 0
    }

    /// The session after it asked to join.
    pub open spec fn requested(self) -> SessionView {
        if self.state is Menu {
            SessionView { state: ClientState::Joining, ..self }
        } else {
            self
        }
    }

    /// The session after a control message was received. While it joins
    /// and has no id, only `Joined` counts: it gives the id, and the session
    /// goes on `Joining`. Once `Joined` and until the start is known, only
    /// `GameStarted` counts: the start is noted, and the session stays
    /// `Joined`. Everything else is discarded.
    pub open spec fn received(self, packet: Packet) -> SessionView {
        match (self.state, packet) {
            (ClientState::Joining, Packet::Joined(id)) if !self.admitted => SessionView {
                player_id: id,
                admitted: true,
                ..self
            },
            (ClientState::Joined, Packet::GameStarted) if !self.started => SessionView {
                started: true,
                ..self
            },
            _ => self,
        }
    }

    /// The session after it began to wait for the start: `Joined`, if it
    /// was joining and holds its id.
    pub open spec fn awaiting(self) -> SessionView {
        if self.state is Joining && self.admitted {
            SessionView { state: ClientState::Joined, ..self }
        } else {
            self
        }
    }

    /// Whether the game can begin: the session is `Joined` and knows of the
    /// start.
    pub open spec fn ready(self) -> bool {
        self.state is Joined && self.started
    }

    /// The session after the game began: `Playing`, if it could begin.
    pub open spec fn playing(self) -> SessionView {
        if self.ready() {
            SessionView { state: ClientState::Playing, ..self }
        } else {
            self
        }
    }

    /// The message that carries a state update of the game to the server.
    pub open spec fn state_update(self, update: Option<Seq<u8>>) -> Option<OutgoingView> {
        match update {
            Some(payload) if self.state is Playing => Some(
                OutgoingView {
                    dest: self.server,
                    mode: DeliveryMode::ReliableSequenced,
                    payload,
                },
            ),
            _ => None,
        }
    }
}

/// What a state update of the game holds, if there is one.
pub open spec fn update_view(update: Option<Vec<u8>>) -> Option<Seq<u8>> {
    match update {
        Some(payload) => Some(payload@),
        None => None,
    }
}

/// What a message to send holds, if there is one.
pub open spec fn sent_view(message: Option<Outgoing>) -> Option<OutgoingView> {
    match message {
        Some(sent) => Some(sent@),
        None => None,
    }
}

impl Session {
    /// Every session is well formed, at all times.
    #[verifier::type_invariant]
    spec fn well_formed(&self) -> bool {
        self@.wf()
    }

    /// Creates a session for the given server, in `Menu`.
    pub fn new(server: PeerAddress) -> (session: Session)
        ensures
            session@ == SessionView::initial(server),
    {
        Session {
            state: ClientState::Menu,
            player_id: 0,
            server,
            admitted: false,
            started: false,
        }
    }

    /// The phase the session is in.
    pub fn state(&self) -> (state: ClientState)
        ensures
            state == self@.state,
            self@.wf(),
    {
        proof {
            use_type_invariant(self);
        }
        self.state
    }

    /// The id that the server gave, 0 before it gave one.
    pub fn player_id(&self) -> (id: usize)
        ensures
            id == self@.player_id,
    {
        self.player_id
    }

    /// The server that the session talks to.
    pub fn server(&self) -> (server: PeerAddress)
        ensures
            server == self@.server,
    {
        self.server
    }

    /// Whether the server gave the session its id.
    pub fn is_admitted(&self) -> (admitted: bool)
        ensures
            admitted == self@.admitted,
    {
        self.admitted
    }

    /// Whether the server announced the start of the game.
    pub fn is_started(&self) -> (started: bool)
        ensures
            started == self@.started,
    {
        self.started
    }

    /// Leaves `Menu` and returns the join request to send, once: in any
    /// other phase nothing changes and nothing is to be sent.
    pub fn join(&mut self, color: Color) -> (request: Option<Outgoing>)
        ensures
            final(self)@ == old(self)@.requested(),
            request is Some <==> old(self)@.state is Menu,
            request matches Some(message) ==> message@ == (OutgoingView {
                dest: old(self)@.server,
                mode: DeliveryMode::ReliableOrdered,
                payload: encoding(Packet::Join(color)),
            }),
    {
        proof {
            use_type_invariant(&*self);
        }
        if matches!(self.state, ClientState::Menu) {
            self.state = ClientState::Joining;
            let payload = Packet::Join(color).encode();
            Some(Outgoing::reliable_ordered(self.server, payload))
        } else {
            None
        }
    }

    /// Handles a control message received during the handshake: takes the
    /// id from the first `Joined` while joining, notes the first
    /// `GameStarted` once joined, and discards everything else. The phase
    /// stays as it is.
    pub fn on_packet(&mut self, packet: &Packet)
        ensures
            final(self)@ == old(self)@.received(*packet),
    {
        proof {
            use_type_invariant(&*self);
        }
        match (self.state, packet) {
            (ClientState::Joining, Packet::Joined(id)) => {
                if !self.admitted {
                    *self = Session {
                        state: self.state,
                        player_id: *id,
                        server: self.server,
                        admitted: true,
                        started: self.started,
                    };
                }
            },
            (ClientState::Joined, Packet::GameStarted) => {
                if !self.started {
                    self.started = true;
                }
            },
            _ => {},
        }
    }

    /// Begins to wait for the start of the game: a session that joins and
    /// holds its id becomes `Joined`. Otherwise nothing changes.
    pub fn wait_start(&mut self)
        ensures
            final(self)@ == old(self)@.awaiting(),
    {
        proof {
            use_type_invariant(&*self);
        }
        if matches!(self.state, ClientState::Joining) && self.admitted {
            self.state = ClientState::Joined;
        }
    }

    /// Begins to play: a session that is `Joined` and knows of the start
    /// becomes `Playing` and hands its id and the server's address to the
    /// game, by one call of `init`. Otherwise nothing changes and the game
    /// is left alone.
    pub fn run<C: GameplayClient>(&mut self, client: &mut C)
        ensures
            final(self)@ == old(self)@.playing(),
            old(self)@.ready() ==> exists|game: &mut C|
                {
                    &&& #[trigger] call_ensures(
                        C::init,
                        (game, old(self)@.player_id, old(self)@.server),
                        (),
                    )
                    &&& mut_ref_current(game) == *old(client)
                    &&& mut_ref_future(game) == *final(client)
                },
            !old(self)@.ready() ==> *final(client) == *old(client),
    {
        proof {
            use_type_invariant(&*self);
        }
        if matches!(self.state, ClientState::Joined) && self.started {
            self.state = ClientState::Playing;
            client.init(self.player_id, self.server);
        }
    }

    /// Addresses a state update of the game to the server, to be delivered
    /// sequenced so that a newer update supersedes one still in flight.
    pub fn state_update(&self, update: Option<Vec<u8>>) -> (message: Option<Outgoing>)
        ensures
            sent_view(message) == self@.state_update(update_view(update)),
    {
        match update {
            Some(payload) => {
                if matches!(self.state, ClientState::Playing) {
                    Some(Outgoing::reliable_sequenced(self.server, payload))
                } else {
                    None
                }
            },
            None => None,
        }
    }

    /// Runs the game's part of one frame: forwards every received payload,
    /// then every local input event, lets the game update, and returns the
    /// one message it may send. Before the game plays, nothing is forwarded,
    /// nothing is sent, and game and display stay as they are.
    ///
    /// While the game plays, the contract follows game and display through
    /// the frame. `games` and `screens` hold their states before the first
    /// payload and after each one, `players` and `views` their states before
    /// the first event and after each one. Every call is one that the game's
    /// own contract admits for the payload or event at that place, and the
    /// message is the state update that the closing call of `update`
    /// returned, addressed to the server.
    pub fn frame<C: GameplayClient>(
        &self,
        client: &mut C,
        display: &mut C::Display,
        inbound: &Vec<Envelope>,
        events: &Vec<C::Event>,
    ) -> (message: Option<Outgoing>)
        ensures
            !(self@.state is Playing) ==> {
                &&& message is None
                &&& *final(client) == *old(client)
                &&& *final(display) == *old(display)
            },
            self@.state is Playing ==> exists|
                games: Seq<C>,
                screens: Seq<C::Display>,
                players: Seq<C>,
                views: Seq<C::Display>,
                update: Option<Vec<u8>>,
            |
                #![trigger games.len(), screens.len(), players.len(), views.len(), update_view(update)]
                {
                    &&& games.len() == inbound.len() + 1
                    &&& screens.len() == inbound.len() + 1
                    &&& players.len() == events.len() + 1
                    &&& views.len() == events.len() + 1
                    &&& games[0] == *old(client)
                    &&& screens[0] == *old(display)
                    &&& players[0] == games.last()
                    &&& views[0] == screens.last()
                    &&& forall|k: int|
                        #![trigger games[k]]
                        0 <= k < inbound.len() ==> exists|
                            game: &mut C,
                            payload: &[u8],
                            screen: &mut C::Display,
                        |
                            {
                                &&& #[trigger] call_ensures(
                                    C::on_packet,
                                    (game, payload, screen),
                                    (),
                                )
                                &&& mut_ref_current(game) == games[k]
                                &&& payload@ == inbound[k].payload@
                                &&& mut_ref_current(screen) == screens[k]
                                &&& mut_ref_future(game) == games[k + 1]
                                &&& mut_ref_future(screen) == screens[k + 1]
                            }
                    &&& forall|k: int|
                        #![trigger players[k]]
                        0 <= k < events.len() ==> exists|
                            game: &mut C,
                            event: &C::Event,
                            screen: &mut C::Display,
                        |
                            {
                                &&& #[trigger] call_ensures(C::on_event, (game, event, screen), ())
                                &&& mut_ref_current(game) == players[k]
                                &&& *event == events[k]
                                &&& mut_ref_current(screen) == views[k]
                                &&& mut_ref_future(game) == players[k + 1]
                                &&& mut_ref_future(screen) == views[k + 1]
                            }
                    &&& exists|game: &mut C, screen: &mut C::Display|
                        {
                            &&& #[trigger] call_ensures(C::update, (game, screen), update)
                            &&& mut_ref_current(game) == players.last()
                            &&& mut_ref_current(screen) == views.last()
                            &&& mut_ref_future(game) == *final(client)
                            &&& mut_ref_future(screen) == *final(display)
                        }
                    &&& sent_view(message) == self@.state_update(update_view(update))
                },
    {
        if !matches!(self.state, ClientState::Playing) {
            return None;
        }
        let ghost mut games: Seq<C> = seq![*client];
        let ghost mut screens: Seq<C::Display> = seq![*display];
        let mut k: usize = 0;
        while k < inbound.len()
            invariant
                k <= inbound.len(),
                games.len() == k + 1,
                screens.len() == k + 1,
                games[0] == *old(client),
                screens[0] == *old(display),
                games[k as int] == *client,
                screens[k as int] == *display,
                forall|j: int|
                    #![trigger games[j]]
                    0 <= j < k ==> exists|game: &mut C, payload: &[u8], screen: &mut C::Display|
                        {
                            &&& #[trigger] call_ensures(C::on_packet, (game, payload, screen), ())
                            &&& mut_ref_current(game) == games[j]
                            &&& payload@ == inbound[j].payload@
                            &&& mut_ref_current(screen) == screens[j]
                            &&& mut_ref_future(game) == games[j + 1]
                            &&& mut_ref_future(screen) == screens[j + 1]
                        },
            decreases inbound.len() - k,
        {
            client.on_packet(inbound[k].payload.as_slice(), display);
            proof {
                games = games.push(*client);
                screens = screens.push(*display);
            }
            k += 1;
        }
        let ghost mut players: Seq<C> = seq![*client];
        let ghost mut views: Seq<C::Display> = seq![*display];
        let mut e: usize = 0;
        while e < events.len()
            invariant
                e <= events.len(),
                players.len() == e + 1,
                views.len() == e + 1,
                players[0] == games.last(),
                views[0] == screens.last(),
                players[e as int] == *client,
                views[e as int] == *display,
                forall|j: int|
                    #![trigger players[j]]
                    0 <= j < e ==> exists|
                        game: &mut C,
                        event: &C::Event,
                        screen: &mut C::Display,
                    |
                        {
                            &&& #[trigger] call_ensures(C::on_event, (game, event, screen), ())
                            &&& mut_ref_current(game) == players[j]
                            &&& *event == events[j]
                            &&& mut_ref_current(screen) == views[j]
                            &&& mut_ref_future(game) == players[j + 1]
                            &&& mut_ref_future(screen) == views[j + 1]
                        },
            decreases events.len() - e,
        {
            client.on_event(&events[e], display);
            proof {
                players = players.push(*client);
                views = views.push(*display);
            }
            e += 1;
        }
        let update = client.update(display);
        let ghost asked = update;
        let message = self.state_update(update);
        assert(games.len() == screens.len() && players.len() == views.len() && sent_view(message)
            == self@.state_update(update_view(asked)));
        message
    }
}

/// The handshake only moves forward, one phase at a time: no message and no
/// step takes a session back to an earlier phase or lets it skip one, and
/// a message alone never changes the phase.
pub proof fn lemma_client_never_goes_back(pre: SessionView, packet: Packet)
    ensures
        pre.received(packet).state == pre.state,
        rank(pre.state) <= rank(pre.requested().state) <= rank(pre.state) + 1,
        rank(pre.state) <= rank(pre.awaiting().state) <= rank(pre.state) + 1,
        rank(pre.state) <= rank(pre.playing().state) <= rank(pre.state) + 1,
        pre.received(packet).server == pre.server,
        pre.requested().server == pre.server,
        pre.awaiting().server == pre.server,
        pre.playing().server == pre.server,
{
}

/// A session plays under the id that the server announced while it was
/// joining: the id is taken from the first `Joined` after the request and
/// kept from then on.
pub proof fn lemma_id_is_kept(pre: SessionView, packet: Packet)
    requires
        pre.admitted,
    ensures
        pre.received(packet).player_id == pre.player_id,
        pre.awaiting().player_id == pre.player_id,
        pre.playing().player_id == pre.player_id,
{
}

/// Every step keeps the session well formed.
pub proof fn lemma_session_steps_keep_wf(pre: SessionView, packet: Packet)
    requires
        pre.wf(),
    ensures
        SessionView::initial(pre.server).wf(),
        pre.requested().wf(),
        pre.received(packet).wf(),
        pre.awaiting().wf(),
        pre.playing().wf(),
{
}

/// The game begins only after the server gave an id and announced the
/// start, in that order: a well-formed session that plays holds both, and
/// from `Menu` it takes the request, a `Joined`, the wait, a `GameStarted`
/// and the last step to get there.
pub proof fn lemma_handshake_in_order(server: PeerAddress, id: usize)
    ensures
        ({
            let asked = SessionView::initial(server).requested();
            let answered = asked.received(Packet::Joined(id));
            let waiting = answered.awaiting();
            let told = waiting.received(Packet::GameStarted);
            &&& asked.state is Joining && !asked.admitted
            &&& answered.state is Joining && answered.admitted && answered.player_id == id
            &&& waiting.state is Joined && !waiting.started
            &&& told.state is Joined && told.started && told.player_id == id
            &&& told.playing().state is Playing && told.playing().player_id == id
            &&& !asked.ready() && !answered.ready() && !waiting.ready()
        }),
{
}

} // verus!
