//! The network manager's decisions: its configuration, scene changes, and
//! where players start.
use crate::message::{MessageSerializer, NetworkMessage};
use crate::message_types::{AddPlayerMessage, ReadyMessage, SceneMessage, SceneOperation};
use crate::network_server::{
    emit, extends, message_bytes, sends_to_all, views, ActionView, HandlerKind, NetworkServer,
    ServerAction,
};
use crate::network_writer::has_nul;
use crate::transport::TransportChannel;
use vstd::prelude::*;

verus! {

/// Handler id under which the application adds players.
pub const ADD_PLAYER_HANDLER: u64 = 1;

/// How a player's start position is picked.
#[derive(Debug, Clone, Copy, PartialEq, Eq, Structural, Default)]
pub enum PlayerSpawnMethod {
    Random,
    #[default]
    RoundRobin,
}

/// How connection quality is estimated.
#[derive(Debug, Clone, Copy, PartialEq, Eq, Structural, Default)]
pub enum ConnectionQualityMethod {
    /// From round-trip time and jitter.
    #[default]
    Simple,
    /// From the snapshot interpolation's adjustment.
    Pragmatic,
}

/// An index from 0 to `n`, both included, drawn by
/// `rand::Rng::random_range` over `0..=n` with `rand`'s thread-local
/// generator. Trusted, not proved: the index lies in that range; which one
/// comes out is chance, and nothing more is said of it.
#[verifier::external_body]
fn random_index_inclusive(n: usize) -> (r: usize)
    ensures
        r <= n,
{
    rand::Rng::random_range(&mut rand::rng(), 0..=n)
}

/// The configuration that a network manager is initialized with.
pub struct NetworkManagerConfig {
    pub dont_destroy_on_load: bool,
    pub send_rate: i32,
    pub start_scene: String,
    pub offline_scene: Option<String>,
    pub online_scene: Option<String>,
    pub player_prefab: String,
    pub auto_create_player: bool,
    pub exceptions_disconnect: bool,
    pub spawn_prefabs: Vec<String>,
}

/// The network manager's state.
pub struct NetworkManager {
    pub dont_destroy_on_load: bool,
    pub send_rate: i32,
    pub start_scene: String,
    pub offline_scene: String,
    pub online_scene: String,
    /// The scene that the server is in or is loading.
    pub network_scene_name: String,
    pub player_prefab: String,
    pub auto_create_player: bool,
    pub exceptions_disconnect: bool,
    pub spawn_prefabs: Vec<String>,
    pub max_connections: i32,
    pub disconnect_inactive_connections: bool,
    pub player_spawn_method: PlayerSpawnMethod,
    pub evaluation_method: ConnectionQualityMethod,
    /// The next start position, for round-robin spawning.
    pub start_position_index: usize,
}

/// The connections a server keeps when it starts listening: all of them
/// once it was initialized, none before.
pub open spec fn listened_connections(server: NetworkServer) -> Seq<
    crate::network_connection::NetworkConnectionToClient,
> {
    if server.initialized {
        server.connections@
    } else {
        Seq::empty()
    }
}

impl NetworkManager {
    pub fn new() -> (r: Self)
        ensures
            r.start_position_index == 0,
            r.network_scene_name@ == Seq::<char>::empty(),
            r.offline_scene@ == Seq::<char>::empty(),
            r.online_scene@ == Seq::<char>::empty(),
            r.player_spawn_method == PlayerSpawnMethod::RoundRobin,
            r.max_connections == 0,
            !r.disconnect_inactive_connections,
    {
        NetworkManager {
            dont_destroy_on_load: false,
            send_rate: 0,
            start_scene: String::new(),
            offline_scene: String::new(),
            online_scene: String::new(),
            network_scene_name: String::new(),
            player_prefab: String::new(),
            auto_create_player: false,
            exceptions_disconnect: false,
            spawn_prefabs: Vec::new(),
            max_connections: 0,
            disconnect_inactive_connections: false,
            player_spawn_method: PlayerSpawnMethod::RoundRobin,
            evaluation_method: ConnectionQualityMethod::Simple,
            start_position_index: 0,
        }
    }

    /// Takes the configuration; the offline and online scenes only when
    /// given. The manager allows 100 connections and sends 60 times a
    /// second, whatever the configured rate.
    pub fn initialize(&mut self, config: NetworkManagerConfig)
        ensures
            final(self).dont_destroy_on_load == config.dont_destroy_on_load,
            final(self).start_scene@ == config.start_scene@,
            final(self).offline_scene@ == match config.offline_scene {
                Some(s) => s@,
                None => old(self).offline_scene@,
            },
            final(self).online_scene@ == match config.online_scene {
                Some(s) => s@,
                None => old(self).online_scene@,
            },
            final(self).player_prefab@ == config.player_prefab@,
            final(self).auto_create_player == config.auto_create_player,
            final(self).exceptions_disconnect == config.exceptions_disconnect,
            final(self).spawn_prefabs@ == config.spawn_prefabs@,
            final(self).max_connections == 100,
            final(self).send_rate == 60,
            final(self).network_scene_name@ == old(self).network_scene_name@,
            final(self).start_position_index == old(self).start_position_index,
            final(self).player_spawn_method == old(self).player_spawn_method,
            final(self).disconnect_inactive_connections == old(self).disconnect_inactive_connections,
    {
        self.dont_destroy_on_load = config.dont_destroy_on_load;
        self.send_rate = config.send_rate;
        self.start_scene = config.start_scene;
        match config.offline_scene {
            Some(s) => {
                self.offline_scene = s;
            },
            None => {},
        }
        match config.online_scene {
            Some(s) => {
                self.online_scene = s;
            },
            None => {},
        }
        self.player_prefab = config.player_prefab;
        self.auto_create_player = config.auto_create_player;
        self.exceptions_disconnect = config.exceptions_disconnect;
        self.spawn_prefabs = config.spawn_prefabs;
        self.max_connections = 100;
        self.send_rate = 60;
    }

    pub fn get_network_scene_name(&self) -> (r: String)
        ensures
            r@ == self.network_scene_name@,
    {
        self.network_scene_name.clone()
    }

    /// The server must change to the online scene when starting: there is
    /// one, it is not the current scene, and it differs from the offline
    /// scene.
    pub open spec fn is_server_online_scene_change_needed_spec(&self) -> bool {
        self.online_scene@.len() > 0 && self.network_scene_name@ != self.online_scene@
            && self.online_scene@ != self.offline_scene@
    }

    pub fn is_server_online_scene_change_needed(&self) -> (r: bool)
        ensures
            r == self.is_server_online_scene_change_needed_spec(),
    {
        !self.online_scene.as_str().is_empty() && !str_eq(&self.network_scene_name, &self.online_scene)
            && !str_eq(&self.online_scene, &self.offline_scene)
    }

    /// The server sends at the manager's rate.
    pub fn apply_configuration(&self, server: &mut NetworkServer)
        ensures
            final(server).tick_rate == self.send_rate as u32,
            final(server).connections@ == old(server).connections@,
            final(server).objects@ == old(server).objects@,
            final(server).spawned@ == old(server).spawned@,
            final(server).active == old(server).active,
            final(server).handlers() == old(server).handlers(),
            final(server).wf() == old(server).wf(),
    {
        server.tick_rate = self.send_rate as u32;
    }

    /// The start position that index `drawn` picks among `count`: that
    /// index when it is below `count`, which moves the round-robin index on;
    /// none otherwise, with nothing changed.
    pub fn start_position_from(&mut self, drawn: usize, count: usize) -> (r: Option<usize>)
        ensures
            r == if drawn < count {
                Some(drawn)
            } else {
                None::<usize>
            },
            drawn < count ==> *final(self) == (NetworkManager {
                start_position_index: ((old(self).start_position_index + 1) % (count as int)) as usize,
                ..*old(self)
            }),
            drawn >= count ==> *final(self) == *old(self),
    {
        if drawn < count {
            self.start_position_index = ((self.start_position_index as u128 + 1) % (count as u128)) as usize;
            return Some(drawn);
        }
        None
    }

    /// The index of the next start position among `count` of the scene, if
    /// any: the round-robin index, or one drawn at random from 0 to `count`
    /// (see `start_position_from`: a draw of `count` finds none). A start
    /// position that is found moves the round-robin index on.
    pub fn get_start_position(&mut self, count: usize) -> (r: Option<usize>)
        ensures
            count == 0 ==> r is None && *final(self) == *old(self),
            old(self).player_spawn_method == PlayerSpawnMethod::RoundRobin && count > 0 ==> r == if old(
                self,
            ).start_position_index < count {
                Some(old(self).start_position_index)
            } else {
                None
            },
            r is Some ==> r->0 < count && *final(self) == (NetworkManager {
                start_position_index: ((old(self).start_position_index + 1) % (count as int)) as usize,
                ..*old(self)
            }),
            r is None ==> *final(self) == *old(self),
    {
        if count == 0 {
            return None;
        }
        let index = match self.player_spawn_method {
            PlayerSpawnMethod::Random => random_index_inclusive(count),
            PlayerSpawnMethod::RoundRobin => self.start_position_index,
        };
        self.start_position_from(index, count)
    }

    /// Whether an added player may be created: not when the manager creates
    /// players automatically and has no player prefab, or one without a
    /// network identity (`prefab_has_identity`), nor when the connection has
    /// a player already.
    pub fn on_server_add_player_internal(
        &self,
        server: &NetworkServer,
        connection_id: u64,
        prefab_has_identity: bool,
    ) -> (r: bool)
        requires
            server.wf(),
        ensures
            r == (!(self.auto_create_player && self.player_prefab@.len() == 0) && !(
            self.auto_create_player && !prefab_has_identity) && !server.has_live_player(
                connection_id,
            )),
    {
        if self.auto_create_player && self.player_prefab.as_str().is_empty() {
            return false;
        }
        if self.auto_create_player && !prefab_has_identity {
            return false;
        }
        !has_live_player(server, connection_id)
    }

    /// Changes the server's scene to `scene_name`: not for an empty name, a
    /// scene that is loading already, or, on an inactive server, any scene
    /// but the offline one. Every client becomes not ready, the scene is
    /// recorded and loaded, an active server tells every client, and start
    /// positions are counted from the first again. Says whether it changed.
    pub fn server_change_scene(
        &mut self,
        server: &mut NetworkServer,
        scene_name: &str,
        out: &mut Vec<ServerAction>,
    ) -> (r: bool)
        requires
            old(server).wf(),
            !has_nul(scene_name@),
        ensures
            final(server).wf(),
            r == (scene_name@.len() > 0 && !(old(server).is_loading_scene && scene_name@
                == old(self).network_scene_name@) && (old(server).active || scene_name@
                == old(self).offline_scene@)),
            !r ==> *final(server) == *old(server) && views(final(out)@) == views(old(out)@)
                && final(self).network_scene_name@ == old(self).network_scene_name@
                && final(self).start_position_index == old(self).start_position_index,
            extends(views(final(out)@), views(old(out)@)),
            final(server).active == old(server).active,
            r ==> {
                &&& final(self).network_scene_name@ == scene_name@
                &&& final(self).start_position_index == 0
                &&& final(server).is_loading_scene
                &&& final(server).active == old(server).active
                &&& final(server).connections@.len() == old(server).connections@.len()
                &&& forall|i: int|
                    0 <= i < old(server).connections@.len() ==> !(
                    #[trigger] final(server).connections@[i]).is_ready
                &&& views(final(out)@) == views(old(out)@) + crate::network_server::not_ready_sends(
                    old(server).connections@,
                ) + seq![
                    ActionView::LoadScene { scene_name: scene_name@ },
                    ActionView::ServerChangeScene { scene_name: scene_name@ },
                ] + if old(server).active && message_bytes::<SceneMessage>(
                    (scene_name@, SceneOperation::Normal, false),
                ).len() <= 1502 {
                    sends_to_all(
                        final(server).connections@,
                        false,
                        TransportChannel::Reliable,
                        message_bytes::<SceneMessage>((scene_name@, SceneOperation::Normal, false)),
                    )
                } else {
                    Seq::empty()
                }
            },
    {
        assert(views(old(out)@).subrange(0, views(old(out)@).len() as int) =~= views(old(out)@));
        if scene_name.is_empty() {
            return false;
        }
        if server.is_loading_scene && str_eq_str(scene_name, &self.network_scene_name) {
            return false;
        }
        if !server.active && !str_eq_str(scene_name, &self.offline_scene) {
            return false;
        }
        assert(views(old(out)@).subrange(0, views(old(out)@).len() as int) =~= views(old(out)@));
        server.set_all_clients_not_ready(out);
        self.network_scene_name = scene_name.to_owned();
        emit(out, ServerAction::LoadScene { scene_name: scene_name.to_owned() });
        emit(out, ServerAction::ServerChangeScene { scene_name: scene_name.to_owned() });
        let ghost mid = views(out@);
        server.is_loading_scene = true;
        if server.active {
            let mut message = SceneMessage::new(scene_name.to_owned(), SceneOperation::Normal, false);
            server.send_to_all(&mut message, TransportChannel::Reliable, false, out);
        }
        self.start_position_index = 0;
        assert(views(out@) =~= views(old(out)@) + crate::network_server::not_ready_sends(
            old(server).connections@,
        ) + seq![
            ActionView::LoadScene { scene_name: scene_name@ },
            ActionView::ServerChangeScene { scene_name: scene_name@ },
        ] + if old(server).active && message_bytes::<SceneMessage>(
            (scene_name@, SceneOperation::Normal, false),
        ).len() <= 1502 {
            sends_to_all(
                server.connections@,
                false,
                TransportChannel::Reliable,
                message_bytes::<SceneMessage>((scene_name@, SceneOperation::Normal, false)),
            )
        } else {
            Seq::empty()
        });
        assert(views(out@).subrange(0, views(old(out)@).len() as int) =~= views(old(out)@));
        true
    }

    /// Registers the manager's handlers: added players go to the
    /// application, and a ready message makes its connection ready, from any
    /// connection; the application handles disconnections.
    pub fn register_server_messages(&self, server: &mut NetworkServer)
        requires
            old(server).wf(),
        ensures
            final(server).wf(),
            final(server).handlers() == crate::network_server::with_handler(
                old(server).handlers(),
                <AddPlayerMessage as MessageSerializer>::spec_id(),
                crate::network_server::MessageHandler {
                    kind: HandlerKind::Custom(ADD_PLAYER_HANDLER),
                    require_authentication: false,
                },
            ).insert(
                <ReadyMessage as MessageSerializer>::spec_id(),
                crate::network_server::MessageHandler {
                    kind: HandlerKind::Ready,
                    require_authentication: false,
                },
            ),
            final(server).has_disconnected_handler,
            final(server).same_but_handlers(old(server)),
    {
        server.register_handler::<AddPlayerMessage>(HandlerKind::Custom(ADD_PLAYER_HANDLER), false);
        server.replace_handler::<ReadyMessage>(HandlerKind::Ready, false);
        server.has_disconnected_handler = true;
    }

    /// Configures the server from the manager, starts it for the manager's
    /// number of connections, and registers the manager's handlers.
    #[verifier::spinoff_prover]
    #[verifier::rlimit(50)]
    pub fn setup_server(&self, server: &mut NetworkServer, out: &mut Vec<ServerAction>)
        requires
            old(server).wf(),
        ensures
            final(server).wf(),
            final(server).active,
            final(server).initialized,
            final(server).has_disconnected_handler,
            final(server).max_connections == self.max_connections,
            final(server).disconnect_inactive_connections == self.disconnect_inactive_connections,
            final(server).exceptions_disconnect == self.exceptions_disconnect,
            final(server).objects@ == old(server).objects@,
            final(server).spawned@ == old(server).spawned@,
            final(server).next_network_id == old(server).next_network_id,
            final(server).connections@ == listened_connections(*old(server)),
            extends(views(final(out)@), views(old(out)@)),
            views(final(out)@) == views(old(out)@) + crate::network_server::listen_actions(
                old(server).initialized,
                old(server).listen,
            ),
    {
        server.disconnect_inactive_connections = self.disconnect_inactive_connections;
        server.exceptions_disconnect = self.exceptions_disconnect;
        server.listen(self.max_connections, out);
        self.register_server_messages(server);
    }

    /// Starts the server, unless it is active: it is set up, the application
    /// is told, and it changes to the online scene when that is needed, else
    /// spawns the scene's objects (`valid_parent` says, by object, whether
    /// its parent is active). Says whether it started.
    #[verifier::spinoff_prover]
    pub fn start_server(
        &mut self,
        server: &mut NetworkServer,
        valid_parent: &Vec<bool>,
        out: &mut Vec<ServerAction>,
    ) -> (r: bool)
        requires
            old(server).wf(),
            valid_parent@.len() == old(server).objects@.len(),
            old(server).next_network_id + old(server).objects@.len() < u32::MAX,
            !has_nul(old(self).online_scene@),
        ensures
            final(server).wf(),
            r == !old(server).active,
            !r ==> *final(server) == *old(server) && views(final(out)@) == views(old(out)@),
            r ==> final(server).active,
            extends(views(final(out)@), views(old(out)@)),
            r && !old(self).is_server_online_scene_change_needed_spec() ==> exists|s1: NetworkServer|
                #[trigger] final(server).objects_spawned(
                    &s1,
                    valid_parent@,
                    views(final(out)@),
                    (views(old(out)@) + crate::network_server::listen_actions(
                        old(server).initialized,
                        old(server).listen,
                    )).push(ActionView::ServerStarted),
                ) && s1.objects@ == old(server).objects@ && s1.active,
            r && old(self).is_server_online_scene_change_needed_spec() ==> {
                &&& final(self).network_scene_name@ == old(self).online_scene@
                &&& final(server).is_loading_scene
                &&& final(self).start_position_index == 0
                &&& final(server).connections@.len() == listened_connections(*old(server)).len()
                &&& forall|i: int|
                    0 <= i < final(server).connections@.len() ==> !(
                    #[trigger] final(server).connections@[i]).is_ready
                &&& views(final(out)@) == (views(old(out)@) + crate::network_server::listen_actions(
                    old(server).initialized,
                    old(server).listen,
                )).push(ActionView::ServerStarted) + crate::network_server::not_ready_sends(
                    listened_connections(*old(server)),
                ) + seq![
                    ActionView::LoadScene { scene_name: old(self).online_scene@ },
                    ActionView::ServerChangeScene { scene_name: old(self).online_scene@ },
                ] + if message_bytes::<SceneMessage>(
                    (old(self).online_scene@, SceneOperation::Normal, false),
                ).len() <= 1502 {
                    sends_to_all(
                        final(server).connections@,
                        false,
                        TransportChannel::Reliable,
                        message_bytes::<SceneMessage>(
                            (old(self).online_scene@, SceneOperation::Normal, false),
                        ),
                    )
                } else {
                    Seq::empty()
                }
            },
    {
        assert(views(old(out)@).subrange(0, views(old(out)@).len() as int) =~= views(old(out)@));
        if server.active {
            return false;
        }
        self.setup_server(server, out);
        let ghost before = views(out@);
        emit(out, ServerAction::ServerStarted);
        proof {
            assert(views(out@) =~= before + seq![ActionView::ServerStarted]);
            crate::network_server::lemma_extends_append(views(out@), before, views(old(out)@), seq![ActionView::ServerStarted]);
        }
        if self.is_server_online_scene_change_needed() {
            let online_scene = self.online_scene.clone();
            let ghost before2 = views(out@);
            let changed = self.server_change_scene(server, online_scene.as_str(), out);
            proof {
                crate::network_server::lemma_extends_trans(views(out@), before2, views(old(out)@));
                assert(changed);
                assert(before2 == (views(old(out)@) + crate::network_server::listen_actions(
                    old(server).initialized,
                    old(server).listen,
                )).push(ActionView::ServerStarted));
            }
        } else {
            let ghost before2 = views(out@);
            let ghost s1 = *server;
            server.spawn_objects(valid_parent, out);
            proof {
                crate::network_server::lemma_extends_trans(views(out@), before2, views(old(out)@));
                assert(server.objects_spawned(&s1, valid_parent@, views(out@), before2));
            }
        }
        true
    }

    /// A connection arrived: an authenticator, when the application has one
    /// (`has_authenticator`), authenticates it, which the result says;
    /// otherwise it counts as authenticated at once.
    pub fn on_server_connect_internal(
        &self,
        server: &mut NetworkServer,
        connection_id: u64,
        has_authenticator: bool,
        out: &mut Vec<ServerAction>,
    ) -> (r: bool)
        requires
            old(server).wf(),
            !has_nul(self.network_scene_name@),
        ensures
            r == has_authenticator,
            final(server).wf(),
            r ==> *final(server) == *old(server) && views(final(out)@) == views(old(out)@),
            !r ==> forall|i: int|
                0 <= i < old(server).connections@.len() ==> (#[trigger] final(server).connections@[i]).is_authenticated
                    == (old(server).connections@[i].is_authenticated || old(server).connections@[i].connection_id
                    == connection_id),
    {
        if has_authenticator {
            return true;
        }
        self.on_server_authenticated(server, connection_id, out);
        false
    }

    /// A connection authenticated: it is marked so, it is told the current
    /// scene when there is one that is not the offline scene, and the
    /// application is told.
    pub fn on_server_authenticated(
        &self,
        server: &mut NetworkServer,
        connection_id: u64,
        out: &mut Vec<ServerAction>,
    )
        requires
            old(server).wf(),
            !has_nul(self.network_scene_name@),
        ensures
            final(server).wf(),
            final(server).objects@ == old(server).objects@,
            final(server).spawned@ == old(server).spawned@,
            final(server).connections@.len() == old(server).connections@.len(),
            forall|i: int|
                0 <= i < old(server).connections@.len() ==> {
                    let c = old(server).connections@[i];
                    let m = #[trigger] final(server).connections@[i];
                    &&& m.connection_id == c.connection_id
                    &&& m.is_ready == c.is_ready
                    &&& m.identity == c.identity
                    &&& m.is_authenticated == (c.is_authenticated || c.connection_id == connection_id)
                },
            views(final(out)@) == views(old(out)@) + (if self.network_scene_name@.len() > 0
                && self.network_scene_name@ != self.offline_scene@ {
                crate::network_server::send_view(
                    connection_id,
                    TransportChannel::Reliable,
                    message_bytes::<SceneMessage>(
                        (self.network_scene_name@, SceneOperation::Normal, false),
                    ),
                )
            } else {
                Seq::empty()
            }).push(ActionView::ServerConnect { connection_id }),
    {
        match server.find_connection(connection_id) {
            Some(ci) => {
                proof {
                    server.lemma_connection_index(connection_id, ci as int);
                }
                server.connections[ci].is_authenticated = true;
                proof {
                    assert forall|a: int, b: int|
                        0 <= a < b < server.connections@.len() implies #[trigger] server.connections@[a].connection_id
                        != #[trigger] server.connections@[b].connection_id by {
                        assert(old(server).connections@[a].connection_id != old(server).connections@[b].connection_id);
                    }
                }
            },
            None => {},
        }
        let ghost before = views(out@);
        if !self.network_scene_name.as_str().is_empty() && !str_eq(&self.network_scene_name, &self.offline_scene) {
            let mut message = SceneMessage::new(self.network_scene_name.clone(), SceneOperation::Normal, false);
            crate::network_server::send_message(out, connection_id, &mut message, TransportChannel::Reliable);
        } else {
            assert(views(out@) =~= before + Seq::<ActionView>::empty());
        }
        emit(out, ServerAction::ServerConnect { connection_id });
    }

    /// A scene finished loading: the server is no longer loading, spawns
    /// the scene's objects, and the application is told.
    #[verifier::spinoff_prover]
    pub fn finish_load_scene(
        &self,
        server: &mut NetworkServer,
        valid_parent: &Vec<bool>,
        out: &mut Vec<ServerAction>,
    )
        requires
            old(server).wf(),
            valid_parent@.len() == old(server).objects@.len(),
            old(server).next_network_id + old(server).objects@.len() < u32::MAX,
        ensures
            final(server).wf(),
            !final(server).is_loading_scene,
            extends(views(final(out)@), views(old(out)@)),
            views(final(out)@).last() == (ActionView::ServerSceneChanged {
                scene_name: self.network_scene_name@,
            }),
            ({
                let unloading = NetworkServer { is_loading_scene: false, ..*old(server) };
                &&& !old(server).active ==> *final(server) == unloading && views(final(out)@) == views(old(out)@).push(
                    ActionView::ServerSceneChanged { scene_name: self.network_scene_name@ },
                )
                &&& old(server).active ==> exists|spawned_out: Seq<ActionView>|
                    #[trigger] final(server).objects_spawned(&unloading, valid_parent@, spawned_out, views(old(out)@))
                        && views(final(out)@) == spawned_out.push(
                        ActionView::ServerSceneChanged { scene_name: self.network_scene_name@ },
                    )
            }),
    {
        server.is_loading_scene = false;
        let ghost spawn_from = views(out@);
        server.spawn_objects(valid_parent, out);
        let ghost before = views(out@);
        proof {
            if old(server).active {
                assert(server.objects_spawned(&NetworkServer { is_loading_scene: false, ..*old(server) }, valid_parent@, before, views(old(out)@)));
            }
        }
        emit(out, ServerAction::ServerSceneChanged { scene_name: self.network_scene_name.clone() });
        proof {
            assert(views(out@) =~= before + seq![ActionView::ServerSceneChanged { scene_name: self.network_scene_name@ }]);
            crate::network_server::lemma_extends_append(views(out@), before, views(old(out)@), seq![ActionView::ServerSceneChanged { scene_name: self.network_scene_name@ }]);
        }
    }

    /// A scene loaded additively makes an active server spawn its objects.
    pub fn on_scene_loaded(
        &self,
        server: &mut NetworkServer,
        additive: bool,
        valid_parent: &Vec<bool>,
        out: &mut Vec<ServerAction>,
    )
        requires
            old(server).wf(),
            valid_parent@.len() == old(server).objects@.len(),
            old(server).next_network_id + old(server).objects@.len() < u32::MAX,
        ensures
            final(server).wf(),
            !(additive && old(server).active) ==> *final(server) == *old(server) && views(final(out)@) == views(old(out)@),
            additive && old(server).active ==> final(server).objects_spawned(old(server), valid_parent@, views(final(out)@), views(old(out)@)),
            extends(views(final(out)@), views(old(out)@)),
    {
        assert(views(old(out)@).subrange(0, views(old(out)@).len() as int) =~= views(old(out)@));
        if additive && server.active {
            server.spawn_objects(valid_parent, out);
        }
    }
}

/// The connection with id `connection_id` has a player that exists.
fn has_live_player(server: &NetworkServer, connection_id: u64) -> (r: bool)
    requires
        server.wf(),
    ensures
        r == server.has_live_player(connection_id),
{
    match server.find_connection(connection_id) {
        Some(ci) => {
            proof {
                server.lemma_connection_index(connection_id, ci as int);
            }
            match server.connections[ci].identity {
                Some(object_id) => {
                    let found = server.find_object(object_id).is_some();
                    proof {
                        if found {
                            let k = choose|k: int| 0 <= k < server.objects@.len() && server.objects@[k].object_id == object_id;
                            assert(server.has_object(object_id));
                        }
                    }
                    found
                },
                None => false,
            }
        },
        None => false,
    }
}

/// Whether two strings are equal.
pub fn str_eq(a: &String, b: &String) -> (r: bool)
    ensures
        r == (a@ == b@),
{
    *a == *b
}

/// Whether two strings are equal.
pub fn str_eq_str(a: &str, b: &String) -> (r: bool)
    ensures
        r == (a@ == b@),
{
    a.to_owned() == *b
}

} // verus!
