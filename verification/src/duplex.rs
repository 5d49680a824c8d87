//! The duplex pair: a small path service whose server calls its client
//! back over the same connection.
//!
//! The server resolves paths and names from a fixed index. While it answers
//! `ping` it asks the client for its name and tells it of a change, so a
//! call travels in each direction on one connection. The client answers
//! through [`ClientEvents`], exactly as it would answer any request.
//!
//! A call to the peer may fail to be delivered. What the server does next
//! is therefore a function of what came back: [`VfsImpl::ping_on_name`] and
//! [`VfsImpl::ping_on_ack`] decide, and whoever owns the connection makes
//! the calls. Where the peer is in the same process, [`Vfs::ping`] runs the
//! whole exchange.

use std::collections::HashMap;
use vstd::prelude::*;
use vstd::std_specs::hash::*;
use vstd::string::StringExecFns;
use crate::errno;

verus! {

broadcast use vstd::std_specs::hash::group_hash_axioms;

/// Result of resolving a path.
#[derive(Debug, Clone)]
pub struct LookupResult {
    pub item_id: u64,
    pub error: i32,
}

/// What the server can ask of a connected client.
pub trait ClientEvents {
    /// The name the client gives.
    spec fn client_name(&self) -> Seq<char>;

    /// Tells the client that `path` changed. The acknowledgement is free
    /// text: it confirms delivery and means nothing more.
    fn on_file_changed(&self, path: String) -> (ack: String)
    ;

    /// Asks the client for its name.
    fn get_client_name(&self) -> (name: String)
        ensures
            name@ == self.client_name(),
    ;
}

/// What a client can ask of the path service.
pub trait Vfs {
    /// Whether the service is in a state in which it may be called.
    spec fn valid(&self) -> bool;

    /// Liveness probe. The server greets the peer by the name the peer
    /// gives when asked, and tells it of a change before it answers.
    fn ping<C: ClientEvents>(&self, peer: &C) -> (r: String)
        ensures
            r@ == greeting(peer.client_name()),
    ;

    /// Resolves a path to an identifier.
    fn lookup(&self, path: String) -> (r: LookupResult)
        requires
            self.valid(),
        ensures
            r.error == errno::OK || r.error == errno::ENOENT,
            r.error == errno::ENOENT ==> r.item_id == 0,
    ;

    /// The name of an item, or the empty string where there is none.
    fn get_name(&self, item_id: u64) -> (r: String)
    ;
}

/// The greeting for a peer that gave `name`.
pub open spec fn greeting(name: Seq<char>) -> Seq<char> {
    "Hello "@ + name + "! Greetings from VFS server!"@
}

/// The greeting for a peer whose name could not be had.
pub open spec fn plain_greeting() -> Seq<char> {
    "Hello from VFS server!"@
}

/// The path of which the server tells the client during `ping`.
pub open spec fn changed_path() -> Seq<char> {
    "/foo/bar.txt"@
}

/// The acknowledgement of a client named `name` for a change of `path`.
pub open spec fn acknowledgement(name: Seq<char>, path: Seq<char>) -> Seq<char> {
    "ACK: "@ + name + " received change for "@ + path
}

/// A client that answers with a fixed name.
pub struct ClientEventsImpl {
    pub client_name: String,
}

impl ClientEvents for ClientEventsImpl {
    open spec fn client_name(&self) -> Seq<char> {
        self.client_name@
    }

    fn on_file_changed(&self, path: String) -> (ack: String)
        ensures
            ack@ == acknowledgement(self.client_name@, path@),
    {
        let mut ack = "ACK: ".to_string();
        ack.append(self.client_name.as_str());
        ack.append(" received change for ");
        ack.append(path.as_str());
        ack
    }

    fn get_client_name(&self) -> (name: String) {
        self.client_name.clone()
    }
}

/// What the server does next while it answers `ping`.
#[derive(Debug, Clone)]
pub enum PingStep {
    /// Tell the client, which gave `name`, that `path` changed.
    Notify { name: String, path: String },
    /// Answer the caller with this text.
    Reply(String),
}

/// Whether some entry of the index has this path.
pub open spec fn has_path(index: Seq<(Seq<char>, u64)>, path: Seq<char>) -> bool {
    exists|i: int| 0 <= i < index.len() && (#[trigger] index[i]).0 == path
}

/// The position of the entry with this path, where there is one.
pub open spec fn path_row(index: Seq<(Seq<char>, u64)>, path: Seq<char>) -> int {
    choose|i: int| 0 <= i < index.len() && (#[trigger] index[i]).0 == path
}

/// No path occurs twice in the index.
pub open spec fn paths_differ(index: Seq<(Seq<char>, u64)>) -> bool {
    forall|i: int, j: int|
        0 <= i < j < index.len() ==> (#[trigger] index[i]).0 != (#[trigger] index[j]).0
}

/// What `lookup` answers.
pub open spec fn resolve(index: Seq<(Seq<char>, u64)>, path: Seq<char>) -> LookupResult {
    if has_path(index, path) {
        LookupResult { item_id: index[path_row(index, path)].1, error: errno::OK }
    } else {
        LookupResult { item_id: 0, error: errno::ENOENT }
    }
}

/// What `get_name` answers.
pub open spec fn name_of(names: Map<u64, Seq<char>>, item_id: u64) -> Seq<char> {
    if names.contains_key(item_id) {
        names[item_id]
    } else {
        Seq::empty()
    }
}

/// The index a new server starts with.
pub open spec fn starter_paths() -> Seq<(Seq<char>, u64)> {
    seq![("/"@, 1u64), ("/foo"@, 2u64), ("/foo/bar.txt"@, 3u64), ("/documents"@, 4u64)]
}

/// The names a new server starts with.
pub open spec fn starter_names() -> Map<u64, Seq<char>> {
    map![1u64 => "/"@, 2u64 => "foo"@, 3u64 => "bar.txt"@, 4u64 => "documents"@]
}

/// The path service.
pub struct VfsImpl {
    items: Vec<(String, u64)>,
    names: HashMap<u64, String>,
}

impl VfsImpl {
    /// The index from paths to identifiers.
    pub closed spec fn paths(&self) -> Seq<(Seq<char>, u64)> {
        self.items@.map_values(|e: (String, u64)| (e.0@, e.1))
    }

    /// The names by identifier.
    pub closed spec fn names(&self) -> Map<u64, Seq<char>> {
        self.names@.map_values(|s: String| s@)
    }

    /// No path occurs twice.
    pub open spec fn wf(&self) -> bool {
        paths_differ(self.paths())
    }

    /// A server with the starter index.
    pub fn new() -> (r: VfsImpl)
        ensures
            r.wf(),
            r.paths() == starter_paths(),
            r.names() == starter_names(),
    {
        let mut items: Vec<(String, u64)> = Vec::new();
        let mut names: HashMap<u64, String> = HashMap::new();

        items.push(("/".to_string(), 1));
        names.insert(1, "/".to_string());

        items.push(("/foo".to_string(), 2));
        names.insert(2, "foo".to_string());

        items.push(("/foo/bar.txt".to_string(), 3));
        names.insert(3, "bar.txt".to_string());

        items.push(("/documents".to_string(), 4));
        names.insert(4, "documents".to_string());

        let r = VfsImpl { items, names };
        proof {
            assert(r.paths() =~= starter_paths());
            assert(r.names() =~= starter_names());
            reveal_strlit("/");
            reveal_strlit("/foo");
            reveal_strlit("/foo/bar.txt");
            reveal_strlit("/documents");
            let p = starter_paths();
            assert(p[0].0.len() == 1);
            assert(p[1].0.len() == 4);
            assert(p[2].0.len() == 12);
            assert(p[3].0.len() == 10);
        }
        r
    }

    /// What the server does once the client has been asked for its name:
    /// with a name it tells the client of the change, without one it answers
    /// the caller at once.
    pub fn ping_on_name(answer: Result<String, String>) -> (r: PingStep)
        ensures
            match answer {
                Ok(n) => match r {
                    PingStep::Notify { name, path } => name == n && path@ == changed_path(),
                    PingStep::Reply(_) => false,
                },
                Err(_) => match r {
                    PingStep::Notify { .. } => false,
                    PingStep::Reply(text) => text@ == plain_greeting(),
                },
            },
    {
        match answer {
            Ok(name) => PingStep::Notify { name, path: "/foo/bar.txt".to_string() },
            Err(_) => PingStep::Reply("Hello from VFS server!".to_string()),
        }
    }

    /// What the server answers once the client has been told of the
    /// change: the greeting by name, whether or not the client acknowledged.
    pub fn ping_on_ack(name: &String, ack: Result<String, String>) -> (r: String)
        ensures
            r@ == greeting(name@),
    {
        let mut text = "Hello ".to_string();
        text.append(name.as_str());
        text.append("! Greetings from VFS server!");
        text
    }

    /// The position of the entry with this path.
    fn find_path(&self, path: &String) -> (r: Option<usize>)
        ensures
            match r {
                Some(k) => k < self.paths().len() && self.paths()[k as int].0 == path@
                    && self.paths()[k as int].1 == self.items@[k as int].1,
                None => !has_path(self.paths(), path@),
            },
    {
        let mut k: usize = 0;
        while k < self.items.len()
            invariant
                k <= self.items@.len(),
                forall|j: int| 0 <= j < k ==> (#[trigger] self.paths()[j]).0 != path@,
            decreases self.items@.len() - k,
        {
            if self.items[k].0 == *path {
                return Some(k);
            }
            k += 1;
        }
        None
    }
}

impl Vfs for VfsImpl {
    open spec fn valid(&self) -> bool {
        self.wf()
    }

    fn ping<C: ClientEvents>(&self, peer: &C) -> (r: String) {
        let name = peer.get_client_name();
        match VfsImpl::ping_on_name(Ok(name)) {
            PingStep::Notify { name, path } => {
                let ack = peer.on_file_changed(path);
                VfsImpl::ping_on_ack(&name, Ok(ack))
            },
            PingStep::Reply(text) => text,
        }
    }

    fn lookup(&self, path: String) -> (r: LookupResult)
        ensures
            r == resolve(self.paths(), path@),
    {
        match self.find_path(&path) {
            Some(k) => {
                proof {
                    let index = self.paths();
                    let w = path_row(index, path@);
                    assert(index[k as int].0 == path@);
                    assert(0 <= w < index.len() && index[w].0 == path@);
                    if w < k {
                        assert(index[w].0 != index[k as int].0);
                    } else if k < w {
                        assert(index[k as int].0 != index[w].0);
                    }
                }
                LookupResult { item_id: self.items[k].1, error: errno::OK }
            },
            None => LookupResult { item_id: 0, error: errno::ENOENT },
        }
    }

    fn get_name(&self, item_id: u64) -> (r: String)
        ensures
            r@ == name_of(self.names(), item_id),
    {
        match self.names.get(&item_id) {
            Some(name) => name.clone(),
            None => String::new(),
        }
    }
}

} // verus!
