//! What a component learns and does through its object: the object's roles,
//! and the remote calls that it sends from the server to clients, to the
//! observers of its object or to one connection.
use crate::network_behaviour::NetworkBehaviour;
use crate::network_identity::NetworkIdentity;
use crate::network_server::{copy_bytes, emit, views, ActionView, NetworkServer, ServerAction};
use crate::transport::TransportChannel;
use vstd::prelude::*;

verus! {

/// The remote call `function_hash` of component `b` with `payload`, sent to
/// connection `connection_id` on `channel`.
pub open spec fn rpc_view(
    connection_id: u64,
    b: NetworkBehaviour,
    function_hash: u16,
    payload: Seq<u8>,
    channel: TransportChannel,
) -> ActionView {
    ActionView::Rpc {
        connection_id,
        net_id: b.net_id,
        component_index: b.component_index,
        function_hash,
        payload,
        channel,
    }
}

/// The remote calls that go to the observers `observers`, in order: to each
/// one that is a ready connection of `server`, and is not the owner `owner`
/// unless `include_owner`.
pub open spec fn rpc_sends(
    server: NetworkServer,
    observers: Seq<u64>,
    owner: u64,
    include_owner: bool,
    b: NetworkBehaviour,
    function_hash: u16,
    payload: Seq<u8>,
    channel: TransportChannel,
) -> Seq<ActionView>
    decreases observers.len(),
{
    if observers.len() == 0 {
        Seq::empty()
    } else {
        let o = observers.last();
        rpc_sends(server, observers.drop_last(), owner, include_owner, b, function_hash, payload, channel)
            + if server.is_ready(o) && (o != owner || include_owner) {
            seq![rpc_view(o, b, function_hash, payload, channel)]
        } else {
            Seq::empty()
        }
    }
}

/// Whether connection `connection_id` is a ready connection of `server`.
fn connection_ready(server: &NetworkServer, connection_id: u64) -> (r: bool)
    requires
        server.wf(),
    ensures
        r == server.is_ready(connection_id),
{
    match server.find_connection(connection_id) {
        Some(i) => {
            proof {
                server.lemma_connection_index(connection_id, i as int);
            }
            server.connections[i].is_ready
        },
        None => false,
    }
}

impl NetworkBehaviour {
    /// The component's object is served; false when the object is gone.
    pub fn is_server(&self, identity: Option<&NetworkIdentity>) -> (r: bool)
        ensures
            r == match identity {
                Some(i) => i.is_server,
                None => false,
            },
    {
        match identity {
            Some(i) => i.is_server,
            None => false,
        }
    }

    /// The component's object is a client's; false when the object is gone.
    pub fn is_client(&self, identity: Option<&NetworkIdentity>) -> (r: bool)
        ensures
            r == match identity {
                Some(i) => i.is_client,
                None => false,
            },
    {
        match identity {
            Some(i) => i.is_client,
            None => false,
        }
    }

    /// The component's object is served and not a client's; false when the
    /// object is gone.
    pub fn is_server_only(&self, identity: Option<&NetworkIdentity>) -> (r: bool)
        ensures
            r == match identity {
                Some(i) => i.is_server && !i.is_client,
                None => false,
            },
    {
        match identity {
            Some(i) => i.is_server_only(),
            None => false,
        }
    }

    /// The component's object is a client's and not served; false when the
    /// object is gone.
    pub fn is_client_only(&self, identity: Option<&NetworkIdentity>) -> (r: bool)
        ensures
            r == match identity {
                Some(i) => i.is_client && !i.is_server,
                None => false,
            },
    {
        match identity {
            Some(i) => i.is_client_only(),
            None => false,
        }
    }

    /// The component's object is owned here; false when the object is gone.
    pub fn is_owned(&self, identity: Option<&NetworkIdentity>) -> (r: bool)
        ensures
            r == match identity {
                Some(i) => i.is_owned,
                None => false,
            },
    {
        match identity {
            Some(i) => i.is_owned,
            None => false,
        }
    }

    /// The connection that owns the component's object, if any.
    pub fn connection_to_client(&self, identity: Option<&NetworkIdentity>) -> (r: Option<u64>)
        ensures
            r == match identity {
                Some(i) => i.connection,
                None => None,
            },
    {
        match identity {
            Some(i) => i.connection(),
            None => None,
        }
    }

    /// Sends remote call `function_hash` with `payload` to the ready
    /// observers of the component's object `identity`, to its owner only
    /// when `include_owner`; nothing unless the object's owner is a live
    /// connection.
    pub fn send_rpc_internal(
        &self,
        identity: &NetworkIdentity,
        server: &NetworkServer,
        function_hash: u16,
        payload: &Vec<u8>,
        channel: TransportChannel,
        include_owner: bool,
        out: &mut Vec<ServerAction>,
    )
        requires
            server.wf(),
        ensures
            views(final(out)@) == views(old(out)@) + match identity.connection {
                Some(owner) => if server.has_connection(owner) {
                    rpc_sends(*server, identity.observers@, owner, include_owner, *self, function_hash, payload@, channel)
                } else {
                    Seq::empty()
                },
                None => Seq::empty(),
            },
    {
        let owner = match identity.connection {
            Some(owner) => owner,
            None => {
                assert(views(out@) =~= views(old(out)@) + Seq::<ActionView>::empty());
                return;
            },
        };
        if !server.connection_contains_key(owner) {
            assert(views(out@) =~= views(old(out)@) + Seq::<ActionView>::empty());
            return;
        }
        let n = identity.observers.len();
        let mut i: usize = 0;
        while i < n
            invariant
                n == identity.observers@.len(),
                i <= n,
                server.wf(),
                views(out@) == views(old(out)@) + rpc_sends(
                    *server,
                    identity.observers@.subrange(0, i as int),
                    owner,
                    include_owner,
                    *self,
                    function_hash,
                    payload@,
                    channel,
                ),
            decreases n - i,
        {
            let o = identity.observers[i];
            let ghost prefix = identity.observers@.subrange(0, i + 1);
            assert(prefix.drop_last() =~= identity.observers@.subrange(0, i as int));
            if connection_ready(server, o) && (o != owner || include_owner) {
                emit(
                    out,
                    ServerAction::Rpc {
                        connection_id: o,
                        net_id: self.net_id,
                        component_index: self.component_index,
                        function_hash,
                        payload: copy_bytes(payload),
                        channel,
                    },
                );
            }
            assert(views(out@) =~= views(old(out)@) + rpc_sends(
                *server,
                prefix,
                owner,
                include_owner,
                *self,
                function_hash,
                payload@,
                channel,
            ));
            i = i + 1;
        }
        assert(identity.observers@.subrange(0, n as int) =~= identity.observers@);
    }

    /// Sends remote call `function_hash` with `payload` to connection
    /// `target`, or, without one, to the owner of the component's object
    /// `identity` when that is a live connection; only a ready connection
    /// gets it. False, with nothing sent, when there is no connection to
    /// send to.
    pub fn send_target_rpc_internal(
        &self,
        identity: &NetworkIdentity,
        server: &NetworkServer,
        target: Option<u64>,
        function_hash: u16,
        payload: &Vec<u8>,
        channel: TransportChannel,
        out: &mut Vec<ServerAction>,
    ) -> (r: bool)
        requires
            server.wf(),
        ensures
            ({
                let to = match target {
                    Some(c) => Some(c),
                    None => match identity.connection {
                        Some(owner) => if server.has_connection(owner) {
                            Some(owner)
                        } else {
                            None
                        },
                        None => None,
                    },
                };
                &&& r == to is Some
                &&& views(final(out)@) == views(old(out)@) + if to is Some && server.is_ready(to->0) {
                    seq![rpc_view(to->0, *self, function_hash, payload@, channel)]
                } else {
                    Seq::empty()
                }
            }),
    {
        let to = match target {
            Some(c) => c,
            None => match identity.connection {
                Some(owner) => {
                    if server.connection_contains_key(owner) {
                        owner
                    } else {
                        assert(views(out@) =~= views(old(out)@) + Seq::<ActionView>::empty());
                        return false;
                    }
                },
                None => {
                    assert(views(out@) =~= views(old(out)@) + Seq::<ActionView>::empty());
                    return false;
                },
            },
        };
        if connection_ready(server, to) {
            emit(
                out,
                ServerAction::Rpc {
                    connection_id: to,
                    net_id: self.net_id,
                    component_index: self.component_index,
                    function_hash,
                    payload: copy_bytes(payload),
                    channel,
                },
            );
            assert(views(out@) =~= views(old(out)@) + seq![rpc_view(to, *self, function_hash, payload@, channel)]);
        } else {
            assert(views(out@) =~= views(old(out)@) + Seq::<ActionView>::empty());
        }
        true
    }
}

} // verus!
