//! The registry of remote calls: commands that clients run on the server
//! and calls that the server runs on clients, keyed by a 16-bit hash of the
//! function's full name.
use crate::stable_hash::{fn_hash, spec_fn_hash};
use std::collections::HashMap;
use vstd::prelude::*;

verus! {

broadcast use vstd::std_specs::hash::group_hash_axioms;

/// The kind of a remote call.
#[derive(Debug, Clone, Copy, PartialEq, Eq, Structural)]
pub enum RemoteCallType {
    /// Sent by a client, run on the server.
    Command,
    /// Sent by the server, run on clients.
    ClientRpc,
}

/// A registered remote call. The delegate itself is kept by the
/// application under `function`, an id of its own choosing.
#[derive(Debug, Clone, PartialEq, Eq)]
pub struct Invoker {
    /// Id of the component type that declares the call.
    pub component_type: u64,
    pub call_type: RemoteCallType,
    /// Id of the delegate.
    pub function: u64,
    pub cmd_requires_authority: bool,
    pub function_name: String,
}

impl Invoker {
    pub open spec fn spec_are_equal(
        &self,
        component_type: u64,
        call_type: RemoteCallType,
        function: u64,
    ) -> bool {
        self.component_type == component_type && self.call_type == call_type && self.function
            == function
    }

    /// Whether this is the same call: same component type, kind and delegate.
    pub fn are_equal(&self, component_type: u64, call_type: RemoteCallType, function: u64) -> (r:
        bool)
        ensures
            r == self.spec_are_equal(component_type, call_type, function),
    {
        self.component_type == component_type && self.call_type == call_type && self.function
            == function
    }
}

/// The registry of remote calls.
pub struct RemoteProcedureCalls {
    delegates: HashMap<u16, Invoker>,
}

impl View for RemoteProcedureCalls {
    type V = Map<u16, Invoker>;

    closed spec fn view(&self) -> Map<u16, Invoker> {
        self.delegates@
    }
}

impl RemoteProcedureCalls {
    pub const INVOKE_RPC_PREFIX: &'static str = "InvokeUserCode_";

    pub fn new() -> (r: Self)
        ensures
            r@ == Map::<u16, Invoker>::empty(),
    {
        RemoteProcedureCalls { delegates: HashMap::new() }
    }

    /// Registers a command; see `register_delegate`.
    pub fn register_command(
        &mut self,
        component_type: u64,
        function_full_name: &str,
        function: u64,
        cmd_requires_authority: bool,
    ) -> (r: u16)
        ensures
            r == spec_fn_hash(function_full_name@),
            Self::spec_after_register(
                old(self)@,
                final(self)@,
                r,
                component_type,
                RemoteCallType::Command,
                function,
                cmd_requires_authority,
                function_full_name@,
            ),
    {
        self.register_delegate(
            component_type,
            function_full_name,
            RemoteCallType::Command,
            function,
            cmd_requires_authority,
        )
    }

    /// The registry `new` after a call was registered under `hash` in `old`:
    /// unchanged when the same call (component type, kind and delegate) is
    /// there already; else the entry under `hash` is set and the others kept.
    pub open spec fn spec_after_register(
        prev: Map<u16, Invoker>,
        new: Map<u16, Invoker>,
        hash: u16,
        component_type: u64,
        call_type: RemoteCallType,
        function: u64,
        cmd_requires_authority: bool,
        name: Seq<char>,
    ) -> bool {
        if prev.contains_key(hash) && prev[hash].spec_are_equal(component_type, call_type, function) {
            new == prev
        } else {
            &&& new.dom() == prev.dom().insert(hash)
            &&& new[hash].component_type == component_type
            &&& new[hash].call_type == call_type
            &&& new[hash].function == function
            &&& new[hash].cmd_requires_authority == cmd_requires_authority
            &&& new[hash].function_name@ == name
            &&& forall|h: u16| h != hash && prev.contains_key(h) ==> new[h] == prev[h]
        }
    }

    /// Registers a remote call under the hash of its full name and returns
    /// the hash. The same call registered again changes nothing; another
    /// call with the same hash replaces the one registered.
    pub fn register_delegate(
        &mut self,
        component_type: u64,
        function_full_name: &str,
        remote_call_type: RemoteCallType,
        function: u64,
        cmd_requires_authority: bool,
    ) -> (r: u16)
        ensures
            r == spec_fn_hash(function_full_name@),
            Self::spec_after_register(
                old(self)@,
                final(self)@,
                r,
                component_type,
                remote_call_type,
                function,
                cmd_requires_authority,
                function_full_name@,
            ),
    {
        let function_hash = fn_hash(function_full_name);
        if self.check_if_delegate_exists(component_type, remote_call_type, function, function_hash) {
            return function_hash;
        }
        let invoker = Invoker {
            component_type,
            call_type: remote_call_type,
            function,
            cmd_requires_authority,
            function_name: function_full_name.to_owned(),
        };
        self.delegates.insert(function_hash, invoker);
        function_hash
    }

    /// Whether the same call is registered under `function_hash`.
    fn check_if_delegate_exists(
        &self,
        component_type: u64,
        remote_call_type: RemoteCallType,
        function: u64,
        function_hash: u16,
    ) -> (r: bool)
        ensures
            r == (self@.contains_key(function_hash) && self@[function_hash].spec_are_equal(
                component_type,
                remote_call_type,
                function,
            )),
    {
        match self.delegates.get(&function_hash) {
            Some(invoker) => invoker.are_equal(component_type, remote_call_type, function),
            None => false,
        }
    }

    /// The call registered under `function_hash` when it is of the given
    /// kind.
    pub fn get_invoker_for_hash(&self, function_hash: u16, remote_call_type: RemoteCallType) -> (r:
        Option<&Invoker>)
        ensures
            r == if self@.contains_key(function_hash) && self@[function_hash].call_type
                == remote_call_type {
                Some(&self@[function_hash])
            } else {
                None
            },
    {
        match self.delegates.get(&function_hash) {
            Some(invoker) => {
                if invoker.call_type == remote_call_type {
                    Some(invoker)
                } else {
                    None
                }
            },
            None => None,
        }
    }

    /// The delegate to run for an incoming call, if a call of that kind is
    /// registered under the hash.
    pub fn invoke(&self, function_hash: u16, remote_call_type: RemoteCallType) -> (r: Option<u64>)
        ensures
            r == if self@.contains_key(function_hash) && self@[function_hash].call_type
                == remote_call_type {
                Some(self@[function_hash].function)
            } else {
                None::<u64>
            },
    {
        match self.get_invoker_for_hash(function_hash, remote_call_type) {
            Some(invoker) => Some(invoker.function),
            None => None,
        }
    }

    /// The full name of the call registered under `function_hash`.
    pub fn get_function_method_name(&self, function_hash: u16) -> (r: Option<String>)
        ensures
            r == if self@.contains_key(function_hash) {
                Some(self@[function_hash].function_name)
            } else {
                None::<String>
            },
    {
        match self.delegates.get(&function_hash) {
            Some(invoker) => Some(invoker.function_name.clone()),
            None => None,
        }
    }

    /// Whether the command registered under `function_hash` may only be run
    /// by the owner of the object; false when none is registered.
    pub fn command_requires_authority(&self, function_hash: u16) -> (r: bool)
        ensures
            r == (self@.contains_key(function_hash)
                && self@[function_hash].cmd_requires_authority),
    {
        match self.delegates.get(&function_hash) {
            Some(invoker) => invoker.cmd_requires_authority,
            None => false,
        }
    }

    pub fn remove_delegate(&mut self, function_hash: u16)
        ensures
            final(self)@ == old(self)@.remove(function_hash),
    {
        self.delegates.remove(&function_hash);
    }
}

} // verus!
