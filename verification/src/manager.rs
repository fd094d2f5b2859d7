//! The list of servers on this node, kept in the order they were added and
//! looked up by UUID, and the decisions taken when the node boots.

use vstd::prelude::*;
use crate::schedule::ServerState;
use std::collections::HashMap;

verus! {

/// The servers of the node, each with its UUID.
pub struct Manager<S> {
    servers: Vec<(u128, S)>,
}

impl<S> Manager<S> {
    /// The servers, in the order they were added.
    pub closed spec fn entries(&self) -> Seq<(u128, S)> {
        self.servers@
    }

    /// A manager with no servers yet, with room for `capacity` of them.
    pub fn new(capacity: usize) -> (r: Manager<S>)
        ensures
            r.entries() == Seq::<(u128, S)>::empty(),
    {
        Manager { servers: Vec::with_capacity(capacity) }
    }

    /// The servers, in the order they were added.
    pub fn get_servers(&self) -> (r: &Vec<(u128, S)>)
        ensures
            r@ == self.entries(),
    {
        &self.servers
    }

    /// Adds a server at the end of the list.
    pub fn create_server(&mut self, uuid: u128, server: S)
        ensures
            final(self).entries() == old(self).entries().push((uuid, server)),
    {
        self.servers.push((uuid, server));
    }

    /// The position of the first server with UUID `uuid`.
    pub fn position(&self, uuid: u128) -> (r: Option<usize>)
        ensures
            r matches Some(i) ==> i < self.entries().len() && self.entries()[i as int].0 == uuid
                && forall|j: int| 0 <= j < i ==> self.entries()[j].0 != uuid,
            r is None ==> forall|j: int| 0 <= j < self.entries().len() ==> self.entries()[j].0 != uuid,
    {
        let mut i: usize = 0;
        while i < self.servers.len()
            invariant
                i <= self.servers@.len(),
                forall|j: int| 0 <= j < i ==> self.servers@[j].0 != uuid,
            decreases self.servers@.len() - i,
        {
            if self.servers[i].0 == uuid {
                return Some(i);
            }
            i += 1;
        }
        None
    }

    /// The first server with UUID `uuid`.
    pub fn find_server(&self, uuid: u128) -> (r: Option<&S>)
        ensures
            r matches Some(s) ==> exists|i: int|
                0 <= i < self.entries().len() && self.entries()[i] == (uuid, *s) && forall|j: int|
                    0 <= j < i ==> self.entries()[j].0 != uuid,
            r is None ==> forall|j: int| 0 <= j < self.entries().len() ==> self.entries()[j].0 != uuid,
    {
        match self.position(uuid) {
            Some(i) => {
                assert(self.entries()[i as int] == (uuid, self.servers@[i as int].1));
                Some(&self.servers[i].1)
            },
            None => None,
        }
    }

    /// Removes the first server with UUID `uuid` and hands it back; the list
    /// is unchanged when there is none.
    pub fn delete_server(&mut self, uuid: u128) -> (r: Option<S>)
        ensures
            r is None ==> final(self).entries() == old(self).entries() && forall|j: int|
                0 <= j < old(self).entries().len() ==> old(self).entries()[j].0 != uuid,
            r matches Some(s) ==> exists|i: int|
                0 <= i < old(self).entries().len() && old(self).entries()[i] == (uuid, s)
                    && (forall|j: int| 0 <= j < i ==> old(self).entries()[j].0 != uuid)
                    && final(self).entries() == old(self).entries().remove(i),
    {
        match self.position(uuid) {
            Some(i) => {
                let (id, server) = self.servers.remove(i);
                Some(server)
            },
            None => None,
        }
    }
}

/// Adding a server with a new UUID and then deleting that UUID hands the
/// server back and leaves the list as it was: in the list after the
/// addition, the only entry that `delete_server` can remove is the new one.
pub proof fn lemma_create_then_delete<S>(before: Seq<(u128, S)>, uuid: u128, server: S)
    requires
        forall|j: int| 0 <= j < before.len() ==> before[j].0 != uuid,
    ensures
        forall|i: int|
            0 <= i < before.len() + 1 && (#[trigger] before.push((uuid, server))[i]).0 == uuid ==> i
                == before.len() && before.push((uuid, server))[i] == (uuid, server) && before.push(
                (uuid, server),
            ).remove(i) == before,
{
    let after = before.push((uuid, server));
    assert(after.remove(before.len() as int) =~= before);
    assert forall|i: int|
        0 <= i < before.len() + 1 && (#[trigger] before.push((uuid, server))[i]).0 == uuid implies i
            == before.len() && before.push((uuid, server))[i] == (uuid, server) && before.push(
            (uuid, server),
        ).remove(i) == before by {
        if i < before.len() {
            assert(after[i] == before[i]);
        }
    }
}

/// What booting does for a server besides loading it.
#[derive(Clone, Copy, Debug, PartialEq, Eq, Structural)]
pub enum BootAction {
    /// An installation was under way: attach to its container again.
    AttachInstallation { reinstall: bool },
    /// Attach to the server's container, and restore its state.
    AttachContainer,
    /// Leave the server alone.
    Nothing,
}

/// The boot decision for a server, from the installation recorded for it
/// (with its reinstall flag) and how many servers may start at a time.
pub open spec fn boot_action_spec(pending_install: Option<bool>, boot_servers_per_page: u64) -> BootAction {
    match pending_install {
        Some(reinstall) => BootAction::AttachInstallation { reinstall },
        None => if boot_servers_per_page > 0 {
            BootAction::AttachContainer
        } else {
            BootAction::Nothing
        },
    }
}

/// Decides what booting does for a server.
pub fn boot_action(pending_install: Option<bool>, boot_servers_per_page: u64) -> (r: BootAction)
    ensures
        r == boot_action_spec(pending_install, boot_servers_per_page),
{
    match pending_install {
        Some(reinstall) => BootAction::AttachInstallation { reinstall },
        None => if boot_servers_per_page > 0 {
            BootAction::AttachContainer
        } else {
            BootAction::Nothing
        },
    }
}

/// Booting resumes a recorded installation with the reinstall flag that was
/// recorded for it, whatever the start-up batch size; without one it
/// attaches to the container exactly when servers may start at all.
pub proof fn lemma_boot_resumes_installation(pending_install: Option<bool>, boot_servers_per_page: u64)
    ensures
        forall|reinstall: bool| pending_install == Some(reinstall) ==> boot_action_spec(
            pending_install,
            boot_servers_per_page,
        ) == (BootAction::AttachInstallation { reinstall }),
        pending_install is None ==> (boot_action_spec(pending_install, boot_servers_per_page)
            == BootAction::AttachContainer <==> boot_servers_per_page > 0),
        pending_install is None ==> (boot_action_spec(pending_install, boot_servers_per_page)
            == BootAction::Nothing <==> boot_servers_per_page == 0),
{
}

/// Each server of a boot plan that is the first with its UUID and has an
/// installation recorded resumes it with the recorded reinstall flag and
/// script; it keeps the state recorded for it, offline when none was.
pub proof fn lemma_plan_resumes_recorded_installation<T>(
    servers: Seq<u128>,
    states: Map<u128, ServerState>,
    installing: Map<u128, (bool, T)>,
    i: int,
    boot_servers_per_page: u64,
)
    requires
        0 <= i < servers.len(),
        first_listed(servers, i),
    ensures
        installing.contains_key(servers[i]) ==> boot_action_spec(
            reinstall_flag(taken_entry(servers, installing, i)),
            boot_servers_per_page,
        ) == (BootAction::AttachInstallation { reinstall: installing[servers[i]].0 }),
        installing.contains_key(servers[i]) ==> taken_entry(servers, installing, i) == Some(installing[servers[i]]),
        states.contains_key(servers[i]) ==> recorded_state_spec(taken_entry(servers, states, i)) == states[servers[i]],
        !states.contains_key(servers[i]) ==> recorded_state_spec(taken_entry(servers, states, i)) == ServerState::Offline,
{
}

/// Whether a state counts as up: running or starting.
pub open spec fn is_up(state: ServerState) -> bool {
    state == ServerState::Running || state == ServerState::Starting
}

/// After attaching, a server that was up before the daemon stopped but is
/// not up now is started again.
pub fn should_restart(previous: ServerState, current: ServerState) -> (r: bool)
    ensures
        r == (is_up(previous) && !is_up(current)),
{
    let was_up = match previous {
        ServerState::Running | ServerState::Starting => true,
        _ => false,
    };
    let is_up_now = match current {
        ServerState::Running | ServerState::Starting => true,
        _ => false,
    };
    was_up && !is_up_now
}

/// The state a server had before the daemon stopped, as recorded, or
/// offline when nothing was recorded.
pub open spec fn recorded_state_spec(recorded: Option<ServerState>) -> ServerState {
    match recorded {
        Some(s) => s,
        None => ServerState::Offline,
    }
}

/// The state a server had before the daemon stopped, as recorded, or
/// offline when nothing was recorded.
pub fn recorded_state(recorded: Option<ServerState>) -> (r: ServerState)
    ensures
        r == recorded_state_spec(recorded),
{
    match recorded {
        Some(s) => s,
        None => ServerState::Offline,
    }
}

/// Whether a server that was just installed is started: only when the
/// installation succeeded and the configuration asks for a start on
/// completion.
pub fn start_after_install(installed: bool, start_on_completion: Option<bool>) -> (r: bool)
    ensures
        r == (installed && start_on_completion == Some(true)),
{
    installed && match start_on_completion {
        Some(b) => b,
        None => false,
    }
}

/// What booting does for one server: its UUID, the action, the state it had
/// before the daemon stopped, and the script of the installation that was
/// under way, if one was.
pub struct BootStep<T> {
    pub uuid: u128,
    pub action: BootAction,
    pub previous: ServerState,
    pub installation: Option<T>,
}

/// Whether `servers[i]` is the first entry with its UUID.
pub open spec fn first_listed(servers: Seq<u128>, i: int) -> bool {
    forall|j: int| 0 <= j < i ==> servers[j] != servers[i]
}

/// The recorded entry of `servers[i]`: each recorded entry is taken once,
/// by the first server with its UUID.
pub open spec fn taken_entry<V>(servers: Seq<u128>, recorded: Map<u128, V>, i: int) -> Option<V> {
    if first_listed(servers, i) && recorded.contains_key(servers[i]) {
        Some(recorded[servers[i]])
    } else {
        None
    }
}

/// The reinstall flag of a recorded installation.
pub open spec fn reinstall_flag<T>(entry: Option<(bool, T)>) -> Option<bool> {
    match entry {
        Some(e) => Some(e.0),
        None => None,
    }
}

/// Plans the boot of the loaded servers, in order: each takes its recorded
/// state (offline when none was recorded) and its recorded installation
/// out of the maps, and gets its boot action.
pub fn plan_boot<T>(
    servers: &Vec<u128>,
    states: &mut HashMap<u128, ServerState>,
    installing: &mut HashMap<u128, (bool, T)>,
    boot_servers_per_page: u64,
) -> (r: Vec<BootStep<T>>)
    ensures
        r@.len() == servers@.len(),
        forall|i: int| 0 <= i < servers@.len() ==> {
            &&& (#[trigger] r@[i]).uuid == servers@[i]
            &&& r@[i].previous == recorded_state_spec(taken_entry(servers@, old(states)@, i))
            &&& r@[i].action == boot_action_spec(
                reinstall_flag(taken_entry(servers@, old(installing)@, i)),
                boot_servers_per_page,
            )
            &&& r@[i].installation == (match taken_entry(servers@, old(installing)@, i) {
                Some(e) => Some(e.1),
                None => None,
            })
        },
        final(states)@ == old(states)@.remove_keys(servers@.to_set()),
        final(installing)@ == old(installing)@.remove_keys(servers@.to_set()),
{
    broadcast use vstd::std_specs::hash::group_hash_axioms;
    let ghost states0 = states@;
    let ghost installing0 = installing@;
    let mut steps: Vec<BootStep<T>> = Vec::new();
    let mut i: usize = 0;
    while i < servers.len()
        invariant
            i <= servers@.len(),
            steps@.len() == i,
            states@ == states0.remove_keys(servers@.take(i as int).to_set()),
            installing@ == installing0.remove_keys(servers@.take(i as int).to_set()),
            forall|k: int| 0 <= k < i ==> {
                &&& (#[trigger] steps@[k]).uuid == servers@[k]
                &&& steps@[k].previous == recorded_state_spec(taken_entry(servers@, states0, k))
                &&& steps@[k].action == boot_action_spec(
                    reinstall_flag(taken_entry(servers@, installing0, k)),
                    boot_servers_per_page,
                )
                &&& steps@[k].installation == (match taken_entry(servers@, installing0, k) {
                    Some(e) => Some(e.1),
                    None => None,
                })
            },
        decreases servers@.len() - i,
    {
        let uuid = servers[i];
        proof {
            assert(first_listed(servers@, i as int) <==> !servers@.take(i as int).to_set().contains(uuid)) by {
                if !first_listed(servers@, i as int) {
                    let j = choose|j: int| 0 <= j < i && servers@[j] == uuid;
                    assert(servers@.take(i as int)[j] == uuid);
                }
                if servers@.take(i as int).to_set().contains(uuid) {
                    assert(servers@.take(i as int).contains(uuid));
                }
            }
            assert(servers@.take(i + 1).to_set() == servers@.take(i as int).to_set().insert(uuid)) by {
                assert(servers@.take(i + 1) == servers@.take(i as int).push(uuid));
                servers@.take(i as int).lemma_push_to_set_commute(uuid);
            }
        }
        let recorded = states.remove(&uuid);
        let installation = installing.remove(&uuid);
        let previous = recorded_state(recorded);
        let (pending, script) = match installation {
            Some((reinstall, script)) => (Some(reinstall), Some(script)),
            None => (None, None),
        };
        let action = boot_action(pending, boot_servers_per_page);
        steps.push(BootStep { uuid, action, previous, installation: script });
        i = i + 1;
    }
    proof {
        assert(servers@.take(servers@.len() as int) == servers@);
    }
    steps
}

} // verus!
