//! The room: players gather in a room scene, mark themselves ready, and the
//! game starts once enough of them are.
use crate::network_connection::{contains_u64, NetworkConnectionToClient};
use crate::network_server::{views, ActionView, NetworkServer, ReplacePlayerOptions, ServerAction};
use vstd::prelude::*;

verus! {

/// A player's slot in the room.
#[derive(Debug, Clone, Copy, PartialEq, Eq, Structural)]
pub struct RoomPlayer {
    /// The room player's object.
    pub object_id: u64,
    pub ready_to_begin: bool,
    /// The player's position among the room's slots.
    pub index: i32,
}

/// A connection whose room player waits for the game scene.
#[derive(Debug, Clone, Copy, PartialEq, Eq, Structural)]
pub struct PendingPlayer {
    pub connection: u64,
    pub room_player: u64,
}

/// What the room tells the application.
#[derive(Debug, Clone, Copy, PartialEq, Eq, Structural)]
pub enum RoomEvent {
    /// Every player is ready: the game scene should be loaded.
    PlayersReady,
    /// Not every player is ready any more.
    PlayersNotReady,
    /// A connection left the room.
    ServerDisconnect { connection_id: u64 },
}

/// What becomes of a player that a client adds.
#[derive(Debug, Clone, Copy, PartialEq, Eq, Structural)]
pub enum AddPlayerDecision {
    /// In the room scene: create a room player for the connection.
    CreateRoomPlayer,
    /// Elsewhere: close the connection.
    Disconnect,
}

/// The configuration that a room is initialized with.
pub struct NetworkRoomManagerConfig {
    pub min_players: i32,
    pub room_player_prefab: String,
    pub room_scene: String,
    pub gameplay_scene: String,
    pub client_index: usize,
}

/// The room's state.
pub struct NetworkRoomManager {
    /// Fewest ready players with which the game starts.
    pub min_players: i32,
    pub room_player_prefab: String,
    pub room_scene: String,
    pub gameplay_scene: String,
    pub pending_players: Vec<PendingPlayer>,
    pub room_slots: Vec<RoomPlayer>,
    /// Every player was ready when last checked.
    pub all_players_ready: bool,
    pub client_index: usize,
}

/// The number of ready slots of `slots`.
pub open spec fn ready_count(slots: Seq<RoomPlayer>) -> nat
    decreases slots.len(),
{
    if slots.len() == 0 {
        0
    } else {
        ready_count(slots.drop_last()) + if slots.last().ready_to_begin {
            1nat
        } else {
            0nat
        }
    }
}

/// Some slot of `slots` holds object `object_id` and is ready.
pub open spec fn slot_ready(slots: Seq<RoomPlayer>, object_id: u64) -> bool {
    exists|i: int| 0 <= i < slots.len() && #[trigger] slots[i].object_id == object_id && slots[i].ready_to_begin
}

/// The number of connections of `cs` whose player is a ready room player.
pub open spec fn ready_connections(cs: Seq<NetworkConnectionToClient>, slots: Seq<RoomPlayer>) -> nat
    decreases cs.len(),
{
    if cs.len() == 0 {
        0
    } else {
        ready_connections(cs.drop_last(), slots) + if cs.last().identity is Some && slot_ready(
            slots,
            cs.last().identity->0,
        ) {
            1nat
        } else {
            0nat
        }
    }
}

/// `slots` without the slots of object `object_id`.
pub open spec fn without_player(slots: Seq<RoomPlayer>, object_id: u64) -> Seq<RoomPlayer> {
    slots.filter(|p: RoomPlayer| p.object_id != object_id)
}

/// `slots` without the slots of each object of `ids`, removed in order.
pub open spec fn without_players(slots: Seq<RoomPlayer>, ids: Seq<u64>) -> Seq<RoomPlayer>
    decreases ids.len(),
{
    if ids.len() == 0 {
        slots
    } else {
        without_player(without_players(slots, ids.drop_last()), ids.last())
    }
}

/// The slots that stay when `connection` leaves: when its player has a
/// slot, that slot goes and so do the slots of the objects it owns.
pub open spec fn slots_after_leaving(slots: Seq<RoomPlayer>, connection: NetworkConnectionToClient) -> Seq<RoomPlayer> {
    match connection.identity {
        Some(player) => if exists|i: int| 0 <= i < slots.len() && #[trigger] slots[i].object_id == player {
            without_players(without_player(slots, player), connection.owned@)
        } else {
            slots
        },
        None => slots,
    }
}

/// The room's event for a change of readiness to `now_ready`, none when it
/// did not change.
pub open spec fn readiness_events(was_ready: bool, now_ready: bool) -> Seq<RoomEvent> {
    if was_ready == now_ready {
        Seq::empty()
    } else if now_ready {
        seq![RoomEvent::PlayersReady]
    } else {
        seq![RoomEvent::PlayersNotReady]
    }
}

/// Removes the slots of object `object_id`, keeping the order of the rest.
fn remove_player(slots: &mut Vec<RoomPlayer>, object_id: u64)
    ensures
        final(slots)@ == without_player(old(slots)@, object_id),
{
    let ghost orig = slots@;
    let mut kept: Vec<RoomPlayer> = Vec::new();
    let mut i: usize = 0;
    while i < slots.len()
        invariant
            slots@ == orig,
            i <= slots.len(),
            kept@ == without_player(orig.subrange(0, i as int), object_id),
        decreases slots.len() - i,
    {
        let p = slots[i];
        proof {
            let s = orig.subrange(0, i as int);
            assert(orig.subrange(0, i + 1) =~= s.push(p));
            s.lemma_filter_push(p, |p: RoomPlayer| p.object_id != object_id);
        }
        if p.object_id != object_id {
            kept.push(p);
        }
        i = i + 1;
    }
    assert(orig.subrange(0, orig.len() as int) =~= orig);
    proof {
        reveal_with_fuel(Seq::filter, 1);
    }
    *slots = kept;
}

impl NetworkRoomManager {
    pub fn new(min_players: i32, room_player_prefab: String, room_scene: String, gameplay_scene: String) -> (r: Self)
        ensures
            r.min_players == min_players,
            r.room_player_prefab@ == room_player_prefab@,
            r.room_scene@ == room_scene@,
            r.gameplay_scene@ == gameplay_scene@,
            r.pending_players@ == Seq::<PendingPlayer>::empty(),
            r.room_slots@ == Seq::<RoomPlayer>::empty(),
            !r.all_players_ready,
            r.client_index == 0,
    {
        NetworkRoomManager {
            min_players,
            room_player_prefab,
            room_scene,
            gameplay_scene,
            pending_players: Vec::new(),
            room_slots: Vec::new(),
            all_players_ready: false,
            client_index: 0,
        }
    }

    /// Takes the configuration; the room has no slots yet.
    pub fn initialize(&mut self, config: NetworkRoomManagerConfig)
        ensures
            final(self).min_players == config.min_players,
            final(self).room_player_prefab@ == config.room_player_prefab@,
            final(self).room_scene@ == config.room_scene@,
            final(self).gameplay_scene@ == config.gameplay_scene@,
            final(self).client_index == config.client_index,
            final(self).room_slots@ == Seq::<RoomPlayer>::empty(),
            final(self).pending_players@ == old(self).pending_players@,
            final(self).all_players_ready == old(self).all_players_ready,
    {
        self.min_players = config.min_players;
        self.room_player_prefab = config.room_player_prefab;
        self.room_slots = Vec::new();
        self.room_scene = config.room_scene;
        self.gameplay_scene = config.gameplay_scene;
        self.client_index = config.client_index;
    }

    /// Records whether every player is ready; a change is told.
    pub fn set_all_players_ready(&mut self, now_ready: bool, events: &mut Vec<RoomEvent>)
        ensures
            final(self).all_players_ready == now_ready,
            final(events)@ == old(events)@ + readiness_events(old(self).all_players_ready, now_ready),
            final(self).room_slots@ == old(self).room_slots@,
            final(self).pending_players@ == old(self).pending_players@,
            final(self).client_index == old(self).client_index,
            final(self).min_players == old(self).min_players,
            final(self).room_scene@ == old(self).room_scene@,
    {
        let was_ready = self.all_players_ready;
        if was_ready != now_ready {
            self.all_players_ready = now_ready;
            if now_ready {
                events.push(RoomEvent::PlayersReady);
            } else {
                events.push(RoomEvent::PlayersNotReady);
            }
        }
        assert(events@ =~= old(events)@ + readiness_events(old(self).all_players_ready, now_ready));
    }

    /// The number of ready slots.
    pub fn count_ready_slots(&self) -> (r: usize)
        ensures
            r == ready_count(self.room_slots@),
    {
        let mut count: usize = 0;
        let mut i: usize = 0;
        while i < self.room_slots.len()
            invariant
                i <= self.room_slots@.len(),
                count == ready_count(self.room_slots@.subrange(0, i as int)),
                count <= i,
            decreases self.room_slots.len() - i,
        {
            proof {
                assert(self.room_slots@.subrange(0, i as int + 1).drop_last() =~= self.room_slots@.subrange(0, i as int));
            }
            if self.room_slots[i].ready_to_begin {
                count = count + 1;
            }
            i = i + 1;
        }
        assert(self.room_slots@.subrange(0, i as int) =~= self.room_slots@);
        count
    }

    /// Whether the player object `object_id` has a ready slot.
    fn is_ready_player(&self, object_id: u64) -> (r: bool)
        ensures
            r == slot_ready(self.room_slots@, object_id),
    {
        let mut i: usize = 0;
        while i < self.room_slots.len()
            invariant
                i <= self.room_slots@.len(),
                forall|k: int| 0 <= k < i ==> !(#[trigger] self.room_slots@[k].object_id == object_id && self.room_slots@[k].ready_to_begin),
            decreases self.room_slots.len() - i,
        {
            if self.room_slots[i].object_id == object_id && self.room_slots[i].ready_to_begin {
                assert(self.room_slots@[i as int].object_id == object_id);
                return true;
            }
            i = i + 1;
        }
        false
    }

    /// The number of the server's connections whose player is a ready room
    /// player.
    pub fn count_ready_connections(&self, server: &NetworkServer) -> (r: usize)
        ensures
            r == ready_connections(server.connections@, self.room_slots@),
    {
        let mut count: usize = 0;
        let mut i: usize = 0;
        while i < server.connections.len()
            invariant
                i <= server.connections@.len(),
                count == ready_connections(server.connections@.subrange(0, i as int), self.room_slots@),
                count <= i,
            decreases server.connections.len() - i,
        {
            proof {
                assert(server.connections@.subrange(0, i as int + 1).drop_last() =~= server.connections@.subrange(0, i as int));
            }
            match server.connections[i].identity {
                Some(object_id) => {
                    if self.is_ready_player(object_id) {
                        count = count + 1;
                    }
                },
                None => {},
            }
            i = i + 1;
        }
        assert(server.connections@.subrange(0, i as int) =~= server.connections@);
        count
    }

    /// In the network scene (`active_scene` is the world's), the game may
    /// begin once enough connections have a ready player: then the pending
    /// players are forgotten and every player is ready; else not every
    /// player is ready.
    pub fn check_ready_to_begin(
        &mut self,
        server: &NetworkServer,
        active_scene: &str,
        network_scene: &str,
        events: &mut Vec<RoomEvent>,
    )
        ensures
            active_scene@ != network_scene@ ==> final(self).all_players_ready == old(self).all_players_ready
                && final(self).pending_players@ == old(self).pending_players@ && final(events)@ == old(events)@,
            active_scene@ == network_scene@ ==> {
                let enough = old(self).min_players <= 0 || ready_connections(
                    server.connections@,
                    old(self).room_slots@,
                ) >= old(self).min_players;
                &&& final(self).all_players_ready == enough
                &&& enough ==> final(self).pending_players@ == Seq::<PendingPlayer>::empty()
                &&& !enough ==> final(self).pending_players@ == old(self).pending_players@
                &&& final(events)@ == old(events)@ + readiness_events(old(self).all_players_ready, enough)
            },
            final(self).room_slots@ == old(self).room_slots@,
            final(self).client_index == old(self).client_index,
            final(self).min_players == old(self).min_players,
            final(self).room_scene@ == old(self).room_scene@,
    {
        if active_scene.to_owned() != network_scene.to_owned() {
            return;
        }
        let number_of_ready_players = self.count_ready_connections(server);
        let enough_ready_players = self.min_players <= 0
            || number_of_ready_players >= self.min_players as usize;
        if enough_ready_players {
            self.pending_players.clear();
            self.set_all_players_ready(true, events);
        } else {
            self.set_all_players_ready(false, events);
        }
    }

    /// A player's readiness changed: when every slot is ready the room
    /// checks whether the game may begin, else not every player is ready.
    pub fn ready_status_changed(
        &mut self,
        server: &NetworkServer,
        active_scene: &str,
        network_scene: &str,
        events: &mut Vec<RoomEvent>,
    )
        ensures
            ready_count(old(self).room_slots@) != old(self).room_slots@.len() ==> {
                &&& !final(self).all_players_ready
                &&& final(events)@ == old(events)@ + readiness_events(old(self).all_players_ready, false)
                &&& final(self).pending_players@ == old(self).pending_players@
            },
            ready_count(old(self).room_slots@) == old(self).room_slots@.len() && active_scene@
                == network_scene@ ==> {
                let enough = old(self).min_players <= 0 || ready_connections(
                    server.connections@,
                    old(self).room_slots@,
                ) >= old(self).min_players;
                &&& final(self).all_players_ready == enough
                &&& enough ==> final(self).pending_players@ == Seq::<PendingPlayer>::empty()
                &&& !enough ==> final(self).pending_players@ == old(self).pending_players@
                &&& final(events)@ == old(events)@ + readiness_events(old(self).all_players_ready, enough)
            },
            ready_count(old(self).room_slots@) == old(self).room_slots@.len() && active_scene@
                != network_scene@ ==> final(self).all_players_ready == old(self).all_players_ready
                && final(self).pending_players@ == old(self).pending_players@ && final(events)@ == old(
                events,
            )@,
            final(self).room_slots@ == old(self).room_slots@,
    {
        let current_players = self.room_slots.len();
        let ready_players = self.count_ready_slots();
        if current_players == ready_players {
            self.check_ready_to_begin(server, active_scene, network_scene, events);
        } else {
            self.set_all_players_ready(false, events);
        }
    }

    /// Numbers the slots in order.
    pub fn recalculate_room_player_indices(&mut self)
        requires
            old(self).room_slots@.len() <= i32::MAX,
        ensures
            final(self).room_slots@.len() == old(self).room_slots@.len(),
            forall|i: int|
                0 <= i < old(self).room_slots@.len() ==> #[trigger] final(self).room_slots@[i] == (RoomPlayer {
                    index: i as i32,
                    ..old(self).room_slots@[i]
                }),
            final(self).all_players_ready == old(self).all_players_ready,
            final(self).pending_players@ == old(self).pending_players@,
    {
        let n = self.room_slots.len();
        let mut i: usize = 0;
        while i < n
            invariant
                n == old(self).room_slots@.len(),
                n <= i32::MAX,
                i <= n,
                self.room_slots@.len() == n,
                forall|k: int| 0 <= k < i ==> #[trigger] self.room_slots@[k] == (RoomPlayer { index: k as i32, ..old(self).room_slots@[k] }),
                forall|k: int| i <= k < n ==> #[trigger] self.room_slots@[k] == old(self).room_slots@[k],
                self.all_players_ready == old(self).all_players_ready,
                self.pending_players@ == old(self).pending_players@,
            decreases n - i,
        {
            let mut p = self.room_slots[i];
            p.index = i as i32;
            self.room_slots.set(i, p);
            i = i + 1;
        }
    }

    /// Removes the slot of the connection's player, when it has one, and then
    /// the slots of the objects that the connection owns.
    fn remove_connection_slots(&mut self, connection: &NetworkConnectionToClient)
        ensures
            final(self).room_slots@ == slots_after_leaving(old(self).room_slots@, *connection),
            final(self).room_slots@.len() <= old(self).room_slots@.len(),
            final(self).all_players_ready == old(self).all_players_ready,
            final(self).room_scene@ == old(self).room_scene@,
            final(self).pending_players@ == old(self).pending_players@,
    {
        match connection.identity {
            Some(player) => {
                if self.has_slot(player) {
                    remove_player(&mut self.room_slots, player);
                    proof {
                        lemma_without_player_len(old(self).room_slots@, player);
                    }
                    let ghost first = self.room_slots@;
                    let mut j: usize = 0;
                    while j < connection.owned.len()
                        invariant
                            j <= connection.owned@.len(),
                            self.room_slots@ == without_players(first, connection.owned@.subrange(0, j as int)),
                            self.room_slots@.len() <= old(self).room_slots@.len(),
                            self.all_players_ready == old(self).all_players_ready,
                            self.room_scene@ == old(self).room_scene@,
                            self.pending_players@ == old(self).pending_players@,
                        decreases connection.owned.len() - j,
                    {
                        let owned = connection.owned[j];
                        let ghost before = self.room_slots@;
                        remove_player(&mut self.room_slots, owned);
                        proof {
                            lemma_without_player_len(before, owned);
                            assert(connection.owned@.subrange(0, j + 1).drop_last() =~= connection.owned@.subrange(0, j as int));
                        }
                        j = j + 1;
                    }
                    assert(connection.owned@.subrange(0, j as int) =~= connection.owned@);
                }
            },
            None => {},
        }
    }

    /// Marks every slot not ready.
    fn clear_ready_flags(&mut self)
        ensures
            final(self).room_slots@.len() == old(self).room_slots@.len(),
            forall|i: int|
                0 <= i < old(self).room_slots@.len() ==> #[trigger] final(self).room_slots@[i] == (RoomPlayer {
                    ready_to_begin: false,
                    ..old(self).room_slots@[i]
                }),
            final(self).all_players_ready == old(self).all_players_ready,
            final(self).room_scene@ == old(self).room_scene@,
            final(self).pending_players@ == old(self).pending_players@,
    {
        let n = self.room_slots.len();
        let mut i: usize = 0;
        while i < n
            invariant
                n == old(self).room_slots@.len(),
                i <= n,
                self.room_slots@.len() == n,
                forall|k: int| 0 <= k < i ==> #[trigger] self.room_slots@[k] == (RoomPlayer {
                    ready_to_begin: false,
                    ..old(self).room_slots@[k]
                }),
                forall|k: int| i <= k < n ==> #[trigger] self.room_slots@[k] == old(self).room_slots@[k],
                self.all_players_ready == old(self).all_players_ready,
                self.room_scene@ == old(self).room_scene@,
                self.pending_players@ == old(self).pending_players@,
            decreases n - i,
        {
            let mut p = self.room_slots[i];
            p.ready_to_begin = false;
            self.room_slots.set(i, p);
            i = i + 1;
        }
    }

    /// A connection left: when its player is a room player, its slot goes,
    /// and so do the slots of the room players that it owns; no player is
    /// ready any more, every slot is not ready, in the room scene the slots
    /// are numbered again, and the application is told.
    pub fn on_server_disconnect(
        &mut self,
        connection: &NetworkConnectionToClient,
        active_scene: &str,
        events: &mut Vec<RoomEvent>,
    )
        requires
            old(self).room_slots@.len() <= i32::MAX,
        ensures
            !final(self).all_players_ready,
            ({
                let kept = slots_after_leaving(old(self).room_slots@, *connection);
                &&& final(self).room_slots@.len() == kept.len()
                &&& forall|i: int|
                    0 <= i < kept.len() ==> #[trigger] final(self).room_slots@[i] == (RoomPlayer {
                        ready_to_begin: false,
                        index: if active_scene@ == old(self).room_scene@ {
                            i as i32
                        } else {
                            kept[i].index
                        },
                        ..kept[i]
                    })
            }),
            final(self).room_slots@.len() <= old(self).room_slots@.len(),
            final(events)@ == old(events)@ + readiness_events(old(self).all_players_ready, false).push(
                RoomEvent::ServerDisconnect { connection_id: connection.connection_id },
            ),
            final(self).pending_players@ == old(self).pending_players@,
    {
        self.remove_connection_slots(connection);
        self.set_all_players_ready(false, events);
        self.clear_ready_flags();
        if active_scene.to_owned() == self.room_scene.clone() {
            self.recalculate_room_player_indices();
        }
        events.push(RoomEvent::ServerDisconnect { connection_id: connection.connection_id });
    }

    /// Whether some slot holds object `object_id`.
    fn has_slot(&self, object_id: u64) -> (r: bool)
        ensures
            r == exists|i: int| 0 <= i < self.room_slots@.len() && #[trigger] self.room_slots@[i].object_id == object_id,
    {
        let mut i: usize = 0;
        while i < self.room_slots.len()
            invariant
                i <= self.room_slots@.len(),
                forall|k: int| 0 <= k < i ==> #[trigger] self.room_slots@[k].object_id != object_id,
            decreases self.room_slots.len() - i,
        {
            if self.room_slots[i].object_id == object_id {
                return true;
            }
            i = i + 1;
        }
        false
    }

    /// A client adds a player: the client count grows; in the room scene no
    /// player is ready any more and the room player `room_player` (the one
    /// that the application made, or made from the room player prefab)
    /// becomes the connection's player; elsewhere the connection is closed.
    pub fn on_server_add_player(
        &mut self,
        connection_id: u64,
        room_player: Option<u64>,
        active_scene: &str,
        server: &mut NetworkServer,
        events: &mut Vec<RoomEvent>,
        out: &mut Vec<ServerAction>,
    ) -> (r: AddPlayerDecision)
        requires
            old(self).client_index < usize::MAX,
            old(server).wf(),
            old(server).next_network_id < u32::MAX,
            active_scene@ == old(self).room_scene@ ==> room_player is Some,
        ensures
            final(self).client_index == old(self).client_index + 1,
            final(server).wf(),
            r == if active_scene@ == old(self).room_scene@ {
                AddPlayerDecision::CreateRoomPlayer
            } else {
                AddPlayerDecision::Disconnect
            },
            active_scene@ == old(self).room_scene@ ==> {
                &&& !final(self).all_players_ready
                &&& final(events)@ == old(events)@ + readiness_events(old(self).all_players_ready, false)
                &&& old(server).has_object(room_player->0) && old(server).has_connection(connection_id)
                    ==> final(server).player_added(
                    old(server),
                    connection_id,
                    room_player->0,
                    views(final(out)@),
                    views(old(out)@),
                )
                &&& !(old(server).has_object(room_player->0) && old(server).has_connection(connection_id))
                    ==> *final(server) == *old(server) && views(final(out)@) == views(old(out)@)
            },
            active_scene@ != old(self).room_scene@ ==> {
                &&& final(self).all_players_ready == old(self).all_players_ready
                &&& final(events)@ == old(events)@
                &&& final(server).readiness_set(old(server), connection_id, false)
                &&& final(server).objects@ == old(server).objects@
                &&& views(final(out)@) == views(old(out)@) + if old(server).has_connection(connection_id) {
                    seq![ActionView::Disconnect { connection_id }]
                } else {
                    Seq::empty()
                }
            },
            final(self).room_slots@ == old(self).room_slots@,
    {
        self.client_index = self.client_index + 1;
        if active_scene.to_owned() == self.room_scene.clone() {
            self.set_all_players_ready(false, events);
            let player = match room_player {
                Some(p) => p,
                None => {
                    return AddPlayerDecision::CreateRoomPlayer;
                },
            };
            server.add_player_for_connection(connection_id, player, out);
            AddPlayerDecision::CreateRoomPlayer
        } else {
            server.disconnect_connection(connection_id, out);
            AddPlayerDecision::Disconnect
        }
    }

    /// A connection is accepted only in the room scene; elsewhere it is
    /// closed. Says whether it was accepted.
    pub fn on_server_connect(
        &self,
        connection_id: u64,
        active_scene: &str,
        server: &mut NetworkServer,
        out: &mut Vec<ServerAction>,
    ) -> (r: bool)
        requires
            old(server).wf(),
        ensures
            r == (active_scene@ == self.room_scene@),
            final(server).wf(),
            r ==> *final(server) == *old(server) && views(final(out)@) == views(old(out)@),
            !r ==> {
                &&& final(server).readiness_set(old(server), connection_id, false)
                &&& final(server).objects@ == old(server).objects@
                &&& views(final(out)@) == views(old(out)@) + if old(server).has_connection(connection_id) {
                    seq![ActionView::Disconnect { connection_id }]
                } else {
                    Seq::empty()
                }
            },
    {
        if active_scene.to_owned() != self.room_scene.clone() {
            server.disconnect_connection(connection_id, out);
            return false;
        }
        true
    }

    /// The server changed scene: outside the room scene the pending players
    /// are handed out, to load their game players, and forgotten.
    pub fn on_server_scene_changed(&mut self, scene_name: &str) -> (r: Vec<PendingPlayer>)
        ensures
            scene_name@ != old(self).room_scene@ ==> r@ == old(self).pending_players@
                && final(self).pending_players@ == Seq::<PendingPlayer>::empty(),
            scene_name@ == old(self).room_scene@ ==> r@ == Seq::<PendingPlayer>::empty()
                && final(self).pending_players@ == old(self).pending_players@,
            final(self).room_slots@ == old(self).room_slots@,
    {
        if scene_name.to_owned() != self.room_scene.clone() {
            let mut pending = Vec::new();
            std::mem::swap(&mut pending, &mut self.pending_players);
            pending
        } else {
            Vec::new()
        }
    }

    /// A room player's scene loaded for a connection: in the room scene it
    /// waits for the game scene. Then the connection's game player
    /// `game_player` (the one the application made, or made from the room
    /// player prefab; none when that prefab is missing) replaces its player,
    /// the previous one kept active, unless the application's hook did not
    /// `accept` it. Says whether the player was replaced.
    pub fn scene_loaded_for_player(
        &mut self,
        active_scene: &str,
        connection: u64,
        room_player: u64,
        game_player: Option<u64>,
        accept: bool,
        server: &mut NetworkServer,
        out: &mut Vec<ServerAction>,
    ) -> (r: bool)
        requires
            old(server).wf(),
            old(server).next_network_id < u32::MAX,
        ensures
            final(self).pending_players@ == if active_scene@ == old(self).room_scene@ {
                old(self).pending_players@.push(PendingPlayer { connection, room_player })
            } else {
                old(self).pending_players@
            },
            final(self).room_slots@ == old(self).room_slots@,
            final(self).room_scene@ == old(self).room_scene@,
            final(server).wf(),
            r == match game_player {
                Some(g) => accept && old(server).has_object(g) && old(server).has_connection(connection)
                    && (forall|k: int| #[trigger] old(server).object_at(g, k) ==> old(server).objects@[k].connection != Some(connection))
                    && old(server).has_live_player(connection),
                None => false,
            },
            !r ==> *final(server) == *old(server) && views(final(out)@) == views(old(out)@),
            r ==> final(server).player_replaced(
                old(server),
                connection,
                game_player->0,
                ReplacePlayerOptions::KeepActive,
                views(final(out)@),
                views(old(out)@),
            ),
    {
        if active_scene.to_owned() == self.room_scene.clone() {
            self.pending_players.push(PendingPlayer { connection, room_player });
        }
        let game_player = match game_player {
            Some(g) => g,
            None => {
                return false;
            },
        };
        if !accept {
            return false;
        }
        server.replace_player_for_connection(connection, game_player, ReplacePlayerOptions::KeepActive, out)
    }

    /// The room can start a server only with a room scene and a game scene.
    pub fn on_start_server(&self) -> (r: bool)
        ensures
            r == (self.room_scene@.len() > 0 && self.gameplay_scene@.len() > 0),
    {
        !self.room_scene.as_str().is_empty() && !self.gameplay_scene.as_str().is_empty()
    }

    /// The server stopped: the room forgets its slots.
    pub fn on_stop_server(&mut self)
        ensures
            final(self).room_slots@ == Seq::<RoomPlayer>::empty(),
            final(self).pending_players@ == old(self).pending_players@,
    {
        self.room_slots.clear();
    }

    /// The server changes scene: on an active server every slot whose player
    /// exists stops being ready and its player, when its owner is a live
    /// connection, is offered back to that owner as its player, keeping the
    /// previous one active, which the server refuses for an object that the
    /// connection owns already, so the server is left as it was; then no
    /// player is ready.
    pub fn on_server_change_scene(
        &mut self,
        server: &mut NetworkServer,
        events: &mut Vec<RoomEvent>,
        out: &mut Vec<ServerAction>,
    )
        requires
            old(server).wf(),
            old(server).next_network_id + old(self).room_slots@.len() < u32::MAX,
        ensures
            final(server).wf(),
            !final(self).all_players_ready,
            final(events)@ == old(events)@ + readiness_events(old(self).all_players_ready, false),
            final(self).room_slots@.len() == old(self).room_slots@.len(),
            forall|i: int|
                0 <= i < old(self).room_slots@.len() ==> #[trigger] final(self).room_slots@[i] == (RoomPlayer {
                    ready_to_begin: old(self).room_slots@[i].ready_to_begin && !(old(server).active
                        && old(server).has_object(old(self).room_slots@[i].object_id)),
                    ..old(self).room_slots@[i]
                }),
            *final(server) == *old(server),
            views(final(out)@) == views(old(out)@),
            final(self).pending_players@ == old(self).pending_players@,
    {
        let n = self.room_slots.len();
        let active = server.active;
        let mut i: usize = 0;
        while i < n
            invariant
                n == old(self).room_slots@.len(),
                i <= n,
                self.room_slots@.len() == n,
                active == old(server).active,
                *server == *old(server),
                self.pending_players@ == old(self).pending_players@,
                self.all_players_ready == old(self).all_players_ready,
                forall|k: int| 0 <= k < i ==> #[trigger] self.room_slots@[k] == (RoomPlayer {
                    ready_to_begin: old(self).room_slots@[k].ready_to_begin && !(active
                        && old(server).has_object(old(self).room_slots@[k].object_id)),
                    ..old(self).room_slots@[k]
                }),
                forall|k: int| i <= k < n ==> #[trigger] self.room_slots@[k] == old(self).room_slots@[k],
            decreases n - i,
        {
            let mut p = self.room_slots[i];
            if active && server.find_object(p.object_id).is_some() {
                p.ready_to_begin = false;
            }
            self.room_slots.set(i, p);
            i = i + 1;
        }
        if active {
            let mut j: usize = 0;
            while j < n
                invariant
                    n == self.room_slots@.len(),
                    j <= n,
                    server.wf(),
                    server.next_network_id + (n - j) < u32::MAX,
                    *server == *old(server),
                    views(out@) == views(old(out)@),
                decreases n - j,
            {
                let player = self.room_slots[j].object_id;
                match server.find_object(player) {
                    Some(k) => {
                        match server.objects[k].connection {
                            Some(owner) => {
                                if server.connection_contains_key(owner) {
                                    proof {
                                        assert(server.object_at(player, k as int));
                                    }
                                    let replaced = server.replace_player_for_connection(
                                        owner,
                                        player,
                                        ReplacePlayerOptions::KeepActive,
                                        out,
                                    );
                                    assert(!replaced);
                                }
                            },
                            None => {},
                        }
                    },
                    None => {},
                }
                j = j + 1;
            }
        }
        self.set_all_players_ready(false, events);
    }
}

proof fn lemma_without_player_len(slots: Seq<RoomPlayer>, object_id: u64)
    ensures
        without_player(slots, object_id).len() <= slots.len(),
{
    slots.filter_lemma(|p: RoomPlayer| p.object_id != object_id);
}

} // verus!
