//! The websocket interface: the requests that clients send, the replies they get, the paths
//! that name actors, and the decisions of the websocket supervisor and of each connection's
//! receiver.
pub mod receiver;
pub mod supervisor;

use vstd::prelude::*;

use crate::actor::Service;

verus! {

/// The identifier of a scope of the runtime.
pub type ScopeId = usize;

/// The route message, wrapper around the text of a websocket message.
#[derive(Clone)]
pub struct RouteMessage(pub String);

impl From<RouteMessage> for String {
    fn from(v: RouteMessage) -> (r: String) {
        v.0
    }
}

impl vstd::std_specs::convert::FromSpecImpl<RouteMessage> for String {
    open spec fn obeys_from_spec() -> bool {
        true
    }

    open spec fn from_spec(v: RouteMessage) -> String {
        v.0
    }
}

/// The event that a client asks for.
pub enum Event {
    /// Shut the actor down.
    Shutdown,
    /// Cast the message to the actor, without a responder.
    Cast(RouteMessage),
    /// Send the message to the actor.
    Call(RouteMessage),
    /// Request the service tree.
    RequestServiceTree,
}

impl Event {
    /// The shutdown event.
    pub fn shutdown() -> (r: Self)
        ensures
            r is Shutdown,
    {
        Self::Shutdown
    }

    /// The event that casts `message`.
    pub fn cast(message: String) -> (r: Self)
        ensures
            r == Event::Cast(RouteMessage(message)),
    {
        Self::Cast(RouteMessage(message))
    }

    /// The event that requests the service tree.
    pub fn service() -> (r: Self)
        ensures
            r is RequestServiceTree,
    {
        Self::RequestServiceTree
    }
}

/// The reply to a request that succeeded.
pub enum Response {
    /// The actor under the path was shut down.
    Shutdown(ActorPath),
    /// The message was cast.
    Sent(RouteMessage),
    /// The response of a call.
    Response(RouteMessage),
    /// The requested service tree.
    ServiceTree(Service),
}

/// The reply to a request that failed.
pub enum Error {
    /// Failed to shut down the actor under the path, with the reason.
    Shutdown(ActorPath, String),
    /// Failed to cast the message to the path, with the reason.
    Cast(ActorPath, RouteMessage, String),
    /// Failed to call the path with the message, with the reason.
    Call(ActorPath, RouteMessage, String),
    /// The service could not be fetched, with the reason.
    ServiceTree(String),
}

/// The reply to a request.
pub type ResponseResult = Result<Response, Error>;

/// A path of directory names from a root scope to an actor's scope.
#[derive(Clone)]
pub struct ActorPath {
    root: ScopeId,
    path: Vec<String>,
}

impl Default for ActorPath {
    /// The empty path from scope 0, as [`ActorPath::new`].
    fn default() -> (r: Self)
        ensures
            r.root() == 0,
            r.directories() == Seq::<Seq<char>>::empty(),
    {
        ActorPath::new()
    }
}

/// A scope of the runtime and the scopes that its directories lead to.
pub struct Scope {
    /// Each directory's name and the scope it leads to; the first entry of a name counts.
    pub active_directories: Vec<(String, ScopeId)>,
}

/// The scopes of the runtime, by identifier.
pub struct ScopeTable {
    /// The scopes.
    pub scopes: std::collections::HashMap<ScopeId, Scope>,
}

/// The scope that the first directory named `name` in `dirs` leads to.
pub open spec fn find_directory(dirs: Seq<(String, ScopeId)>, name: Seq<char>) -> Option<ScopeId>
    decreases dirs.len(),
{
    if dirs.len() == 0 {
        None
    } else if dirs[0].0@ == name {
        Some(dirs[0].1)
    } else {
        find_directory(dirs.drop_first(), name)
    }
}

/// The scope reached from scope `current` through its directory `name`.
pub open spec fn hop(scopes: Map<ScopeId, Scope>, current: ScopeId, name: Seq<char>) -> Option<ScopeId> {
    if scopes.contains_key(current) {
        find_directory(scopes[current].active_directories@, name)
    } else {
        None
    }
}

/// The scope reached from `current` through the directories `path`, in order; none when a
/// scope or a directory on the way is missing.
pub open spec fn resolve(scopes: Map<ScopeId, Scope>, current: ScopeId, path: Seq<Seq<char>>) -> Option<ScopeId>
    decreases path.len(),
{
    if path.len() == 0 {
        Some(current)
    } else {
        match hop(scopes, current, path[0]) {
            Some(next) => resolve(scopes, next, path.drop_first()),
            None => None,
        }
    }
}

/// The names of a path's directories.
pub open spec fn names(path: Seq<String>) -> Seq<Seq<char>> {
    path.map_values(|s: String| s@)
}

proof fn lemma_find_directory_skip(dirs: Seq<(String, ScopeId)>, name: Seq<char>, i: int)
    requires
        0 <= i <= dirs.len(),
        forall|j: int| 0 <= j < i ==> #[trigger] dirs[j].0@ != name,
    ensures
        find_directory(dirs, name) == find_directory(dirs.skip(i), name),
    decreases i,
{
    if i > 0 {
        assert(dirs[0].0@ != name);
        lemma_find_directory_skip(dirs.drop_first(), name, i - 1);
        assert(dirs.drop_first().skip(i - 1) =~= dirs.skip(i));
    } else {
        assert(dirs.skip(0) =~= dirs);
    }
}

/// Going one directory further: the scope reached through `path` followed by `name` is the
/// scope reached from where `path` leads through its directory `name`.
pub proof fn lemma_resolve_push(scopes: Map<ScopeId, Scope>, current: ScopeId, path: Seq<Seq<char>>, name: Seq<char>)
    ensures
        resolve(scopes, current, path.push(name)) == match resolve(scopes, current, path) {
            Some(s) => hop(scopes, s, name),
            None => None,
        },
    decreases path.len(),
{
    if path.len() == 0 {
        assert(path.push(name).drop_first() =~= Seq::<Seq<char>>::empty());
        assert(path.push(name)[0] == name);
        match hop(scopes, current, name) {
            Some(n) => {
                assert(resolve(scopes, n, Seq::<Seq<char>>::empty()) == Some(n));
            },
            None => {},
        }
    } else {
        assert(path.push(name).drop_first() =~= path.drop_first().push(name));
        assert(path.push(name)[0] == path[0]);
        match hop(scopes, current, path[0]) {
            Some(next) => lemma_resolve_push(scopes, next, path.drop_first(), name),
            None => {},
        }
    }
}

impl ScopeTable {
    /// The scope reached from `current` through its directory `name`.
    pub fn hop(&self, current: ScopeId, name: &String) -> (r: Option<ScopeId>)
        ensures
            r == hop(self.scopes@, current, name@),
    {
        broadcast use vstd::std_specs::hash::group_hash_axioms;

        match self.scopes.get(&current) {
            Some(scope) => {
                let dirs = &scope.active_directories;
                let mut k: usize = 0;
                while k < dirs.len()
                    invariant
                        self.scopes@.contains_key(current),
                        dirs@ == self.scopes@[current].active_directories@,
                        k <= dirs.len(),
                        forall|j: int| 0 <= j < k ==> #[trigger] dirs@[j].0@ != name@,
                    decreases dirs.len() - k,
                {
                    if dirs[k].0 == *name {
                        proof {
                            lemma_find_directory_skip(dirs@, name@, k as int);
                            assert(dirs@.skip(k as int)[0] == dirs@[k as int]);
                        }
                        return Some(dirs[k].1);
                    }
                    k = k + 1;
                }
                proof {
                    lemma_find_directory_skip(dirs@, name@, k as int);
                }
                None
            },
            None => None,
        }
    }
}

impl ActorPath {
    /// The scope that the path starts from.
    pub closed spec fn root(&self) -> ScopeId {
        self.root
    }

    /// The names of the path's directories, in order.
    pub closed spec fn directories(&self) -> Seq<Seq<char>> {
        names(self.path@)
    }

    /// The scope that the path starts from.
    pub fn root_scope(&self) -> (r: ScopeId)
        ensures
            r == self.root(),
    {
        self.root
    }

    /// The names of the path's directories, in order.
    pub fn directory_names(&self) -> (r: &Vec<String>)
        ensures
            names(r@) == self.directories(),
    {
        &self.path
    }

    /// The empty path from scope 0.
    pub fn new() -> (r: Self)
        ensures
            r.root() == 0,
            r.directories() == Seq::<Seq<char>>::empty(),
    {
        let r = Self { root: 0, path: Vec::new() };
        assert(r.directories() =~= Seq::<Seq<char>>::empty());
        r
    }

    /// The empty path from scope `scope_id`.
    pub fn with_scope_id(scope_id: ScopeId) -> (r: Self)
        ensures
            r.root() == scope_id,
            r.directories() == Seq::<Seq<char>>::empty(),
    {
        let r = Self { root: scope_id, path: Vec::new() };
        assert(r.directories() =~= Seq::<Seq<char>>::empty());
        r
    }

    /// The path extended with the directory `dir_name`.
    pub fn push(self, dir_name: String) -> (r: Self)
        ensures
            r.root() == self.root(),
            r.directories() == self.directories().push(dir_name@),
    {
        let mut s = self;
        s.path.push(dir_name);
        assert(names(s.path@) =~= names(self.path@).push(dir_name@));
        s
    }

    /// The scope that the path leads to in `scopes`: from the root, through each directory in
    /// order; none when a scope or a directory on the way is missing.
    pub fn destination(&self, scopes: &ScopeTable) -> (r: Option<ScopeId>)
        ensures
            r == resolve(scopes.scopes@, self.root(), self.directories()),
    {
        let mut current = self.root;
        let mut i: usize = 0;
        assert(names(self.path@).skip(0) =~= names(self.path@));
        while i < self.path.len()
            invariant
                i <= self.path.len(),
                resolve(scopes.scopes@, self.root, names(self.path@)) == resolve(
                    scopes.scopes@,
                    current,
                    names(self.path@).skip(i as int),
                ),
            decreases self.path.len() - i,
        {
            let ghost rest = names(self.path@).skip(i as int);
            assert(rest[0] == self.path@[i as int]@);
            assert(rest.drop_first() =~= names(self.path@).skip(i + 1));
            match scopes.hop(current, &self.path[i]) {
                Some(next) => {
                    current = next;
                },
                None => {
                    return None;
                },
            }
            i = i + 1;
        }
        assert(names(self.path@).skip(i as int) =~= Seq::<Seq<char>>::empty());
        Some(current)
    }
}

/// A request of a websocket client: the targeted actor's path and the event for it.
pub struct Interface {
    /// The targeted actor path.
    pub actor_path: ActorPath,
    /// The event for the targeted actor.
    pub event: Event,
}

impl Interface {
    /// The request of `event` for the actor under `actor_path`.
    pub fn new(actor_path: ActorPath, event: Event) -> (r: Self)
        ensures
            r.actor_path == actor_path,
            r.event == event,
    {
        Self { actor_path, event }
    }
}

} // verus!
