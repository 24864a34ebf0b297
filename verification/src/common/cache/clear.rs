//! The notice that a cache's backing state has changed, and the listener
//! that clears the local cache it names.

use vstd::prelude::*;
use vstd::string::*;

verus! {

/// The type tag of the remote notices that clear caches.
pub const REMOTE_NOTIFY_TYPE_CACHE: u8 = 1;

/// The seconds that a listener rests before it connects again after the
/// broadcast channel was lost.
pub const RECONNECT_SECONDS: u64 = 1;

/// The notice that is broadcast to every process: the name of the cache and
/// a payload that only the cache's handler reads.
#[derive(Debug)]
pub struct LocalCacheMessage {
    pub cache_name: String,
    pub message: String,
}

impl LocalCacheMessage {
    /// A notice for the cache `cache_name` with the payload `message`.
    pub fn new(cache_name: String, message: String) -> (out: Self)
        ensures
            out.cache_name == cache_name,
            out.message == message,
    {
        Self { cache_name, message }
    }
}

impl Clone for LocalCacheMessage {
    fn clone(&self) -> (out: Self)
        ensures
            out == *self,
    {
        LocalCacheMessage { cache_name: self.cache_name.clone(), message: self.message.clone() }
    }
}

/// The handler of one local cache.
///
/// A handler is asked for the name of its cache once, when it is
/// registered, and is called once for every notice that names its cache.
/// Notices can arrive twice and can get lost, so a handler has to cope with
/// both.
pub trait LocalCacheClearItem: Sized {
    /// Whether `post` is the handler `pre` after it was called with the
    /// payload `msg`, and `ok` what it answered. A handler that does not say
    /// what clearing does leaves this open.
    open spec fn cleared(pre: Self, msg: Seq<char>, post: Self, ok: bool) -> bool {
        true
    }

    /// Whether `name` is the name that the handler gives for its cache. A
    /// handler that does not say which name it gives leaves this open.
    open spec fn is_cache_name(&self, name: Seq<char>) -> bool {
        true
    }

    fn cache_name(&self) -> (name: &str)
        ensures
            self.is_cache_name(name@),
    ;

    fn clear_from_message(&mut self, msg: &str) -> (out: Result<(), String>)
        ensures
            Self::cleared(*old(self), msg@, *final(self), out is Ok),
    ;
}

/// What became of a notice in one process.
#[derive(Debug)]
pub enum ClearOutcome {
    /// The handler at this place cleared its cache.
    Cleared(usize),
    /// The handler at this place was called and could not read the payload.
    Failed(usize, String),
    /// No handler clears a cache of this name: the notice was dropped.
    Unmatched,
}

/// The place of the first of `names` that is `name`.
pub open spec fn first_handler(names: Seq<Seq<char>>, name: Seq<char>) -> Option<int>
    decreases names.len(),
{
    if names.len() == 0 {
        None
    } else {
        match first_handler(names.drop_last(), name) {
            Some(i) => Some(i),
            None => if names.last() == name {
                Some(names.len() - 1)
            } else {
                None
            },
        }
    }
}

/// The first handler of a name stands in the list under that name, and no
/// handler before it does; there is none only where no handler is
/// registered under the name.
pub proof fn lemma_first_handler(names: Seq<Seq<char>>, name: Seq<char>)
    ensures
        match first_handler(names, name) {
            Some(i) => 0 <= i < names.len() && names[i] == name && forall|k: int|
                0 <= k < i ==> #[trigger] names[k] != name,
            None => forall|k: int| 0 <= k < names.len() ==> #[trigger] names[k] != name,
        },
    decreases names.len(),
{
    if names.len() > 0 {
        lemma_first_handler(names.drop_last(), name);
        match first_handler(names.drop_last(), name) {
            Some(i) => {
                assert(names.drop_last()[i] == names[i]);
                assert forall|k: int| 0 <= k < i implies #[trigger] names[k] != name by {
                    assert(names.drop_last()[k] == names[k]);
                }
            },
            None => {
                assert forall|k: int| 0 <= k < names.len() - 1 implies #[trigger] names[k]
                    != name by {
                    assert(names.drop_last()[k] == names[k]);
                }
            },
        }
    }
}

/// What is found among the first `n` names is what is found among all of
/// them, where anything is found there.
proof fn lemma_first_prefix(names: Seq<Seq<char>>, name: Seq<char>, n: int)
    requires
        0 <= n <= names.len(),
    ensures
        first_handler(names.take(n), name) is Some ==> first_handler(names, name) == first_handler(
            names.take(n),
            name,
        ),
    decreases names.len() - n,
{
    if n < names.len() {
        lemma_first_prefix(names, name, n + 1);
        assert(names.take(n + 1).drop_last() =~= names.take(n));
    } else {
        assert(names.take(n) =~= names);
    }
}

/// What a listener holds: its handlers, and the name that each was
/// registered under.
pub ghost struct ListenerView<T> {
    pub names: Seq<Seq<char>>,
    pub handlers: Seq<T>,
}

/// Whether a listener went from `pre` to `post` by the notice `msg` with
/// the outcome `outcome`: the first handler of the cache that the notice
/// names was called with the payload, and no other handler was touched;
/// where no handler is registered for that cache, none was touched at all.
pub open spec fn delivered<T: LocalCacheClearItem>(
    pre: ListenerView<T>,
    msg: LocalCacheMessage,
    post: ListenerView<T>,
    outcome: ClearOutcome,
) -> bool {
    &&& post.names == pre.names
    &&& match first_handler(pre.names, msg.cache_name@) {
        Some(i) => {
            &&& post.handlers.len() == pre.handlers.len()
            &&& forall|k: int|
                0 <= k < pre.handlers.len() && k != i ==> #[trigger] post.handlers[k]
                    == pre.handlers[k]
            &&& match outcome {
                ClearOutcome::Cleared(at) => at == i && T::cleared(
                    pre.handlers[i],
                    msg.message@,
                    post.handlers[i],
                    true,
                ),
                ClearOutcome::Failed(at, _) => at == i && T::cleared(
                    pre.handlers[i],
                    msg.message@,
                    post.handlers[i],
                    false,
                ),
                ClearOutcome::Unmatched => false,
            }
        },
        None => post.handlers == pre.handlers && outcome is Unmatched,
    }
}

/// Whether every handler of a listener is registered under a name that it
/// gives for its cache.
pub open spec fn named_by_handlers<T: LocalCacheClearItem>(listener: ListenerView<T>) -> bool {
    &&& listener.names.len() == listener.handlers.len()
    &&& forall|k: int|
        0 <= k < listener.handlers.len() ==> (#[trigger] listener.handlers[k]).is_cache_name(
            listener.names[k],
        )
}

/// Where each handler gives one name only, the names that the handlers of a
/// listener are registered under are fixed by the handlers: two listeners
/// with the same handlers route every notice alike.
pub proof fn lemma_names_fixed<T: LocalCacheClearItem>(a: ListenerView<T>, b: ListenerView<T>)
    requires
        named_by_handlers(a),
        named_by_handlers(b),
        a.handlers == b.handlers,
        forall|h: T, x: Seq<char>, y: Seq<char>|
            #[trigger] h.is_cache_name(x) && #[trigger] h.is_cache_name(y) ==> x == y,
    ensures
        a.names == b.names,
{
    assert forall|k: int| 0 <= k < a.names.len() implies a.names[k] == b.names[k] by {
        assert(a.handlers[k].is_cache_name(a.names[k]));
        assert(b.handlers[k].is_cache_name(b.names[k]));
    }
    assert(a.names =~= b.names);
}

/// Where each handler gives one name only, a notice goes to the first
/// handler that gives the notice's name for its cache, and to none where no
/// handler does.
pub proof fn lemma_routes_by_handler<T: LocalCacheClearItem>(
    listener: ListenerView<T>,
    name: Seq<char>,
)
    requires
        named_by_handlers(listener),
        forall|h: T, x: Seq<char>, y: Seq<char>|
            #[trigger] h.is_cache_name(x) && #[trigger] h.is_cache_name(y) ==> x == y,
    ensures
        match first_handler(listener.names, name) {
            Some(i) => 0 <= i < listener.handlers.len() && listener.handlers[i].is_cache_name(
                name,
            ) && forall|k: int|
                0 <= k < i ==> !(#[trigger] listener.handlers[k]).is_cache_name(name),
            None => forall|k: int|
                0 <= k < listener.handlers.len() ==> !(
                #[trigger] listener.handlers[k]).is_cache_name(name),
        },
{
    lemma_first_handler(listener.names, name);
    assert forall|k: int|
        0 <= k < listener.handlers.len() && listener.names[k] != name implies !(
    #[trigger] listener.handlers[k]).is_cache_name(name) by {
        assert(listener.handlers[k].is_cache_name(listener.names[k]));
    }
    match first_handler(listener.names, name) {
        Some(i) => {
            assert(listener.handlers[i].is_cache_name(listener.names[i]));
            assert forall|k: int| 0 <= k < i implies !(
            #[trigger] listener.handlers[k]).is_cache_name(name) by {
                assert(listener.names[k] != name);
            }
        },
        None => {
            assert forall|k: int| 0 <= k < listener.handlers.len() implies !(
            #[trigger] listener.handlers[k]).is_cache_name(name) by {
                assert(listener.names[k] != name);
            }
        },
    }
}

/// The views of a sequence of texts, in order.
pub open spec fn text_views(texts: Seq<String>) -> Seq<Seq<char>> {
    texts.map_values(|t: String| t@)
}

/// The listener of one process: the handlers of its local caches.
pub struct LocalCacheClear<T: LocalCacheClearItem> {
    names: Vec<String>,
    cache_list: Vec<T>,
}

impl<T: LocalCacheClearItem> View for LocalCacheClear<T> {
    type V = ListenerView<T>;

    closed spec fn view(&self) -> ListenerView<T> {
        ListenerView { names: text_views(self.names@), handlers: self.cache_list@ }
    }
}

fn same_name(a: &str, b: &str) -> (same: bool)
    ensures
        same == (a@ == b@),
{
    let x = String::from_str(a);
    let y = String::from_str(b);
    x == y
}

impl<T: LocalCacheClearItem> LocalCacheClear<T> {
    /// Every handler is registered under one name.
    pub open spec fn wf(&self) -> bool {
        self@.names.len() == self@.handlers.len()
    }

    /// A listener with the handlers `cache_list`, in their order, each
    /// registered under the name that it gives for its cache.
    pub fn new(cache_list: Vec<T>) -> (out: Self)
        ensures
            out.wf(),
            out@.handlers == cache_list@,
            named_by_handlers(out@),
    {
        let mut names: Vec<String> = Vec::new();
        let mut i: usize = 0;
        while i < cache_list.len()
            invariant
                i <= cache_list@.len(),
                names@.len() == i,
                forall|k: int|
                    0 <= k < i ==> (#[trigger] cache_list@[k]).is_cache_name(names@[k]@),
            decreases cache_list@.len() - i,
        {
            names.push(String::from_str(cache_list[i].cache_name()));
            i += 1;
        }
        let out = LocalCacheClear { names, cache_list };
        proof {
            assert forall|k: int| 0 <= k < out@.handlers.len() implies (
            #[trigger] out@.handlers[k]).is_cache_name(out@.names[k]) by {
                assert(out@.names[k] == out.names@[k]@);
            }
        }
        out
    }

    /// A listener with the handlers of `entries`, each registered under the
    /// name that stands beside it.
    pub fn with_names(entries: Vec<(String, T)>) -> (out: Self)
        ensures
            out.wf(),
            out@.names == entries@.map_values(|e: (String, T)| e.0@),
            out@.handlers == entries@.map_values(|e: (String, T)| e.1),
    {
        let ghost all = entries@;
        let mut entries = entries;
        let mut names: Vec<String> = Vec::new();
        let mut cache_list: Vec<T> = Vec::new();
        // The entries come off the end, so they are turned round first.
        let mut rest: Vec<(String, T)> = Vec::new();
        while entries.len() > 0
            invariant
                entries@.len() + rest@.len() == all.len(),
                forall|k: int| 0 <= k < entries@.len() ==> entries@[k] == all[k],
                forall|k: int| 0 <= k < rest@.len() ==> rest@[k] == all[all.len() - 1 - k],
            decreases entries@.len(),
        {
            let e = entries.pop().unwrap();
            rest.push(e);
        }
        while rest.len() > 0
            invariant
                names@.len() == cache_list@.len(),
                names@.len() + rest@.len() == all.len(),
                forall|k: int| 0 <= k < rest@.len() ==> rest@[k] == all[all.len() - 1 - k],
                forall|k: int| 0 <= k < names@.len() ==> (#[trigger] names@[k])@ == all[k].0@,
                forall|k: int| 0 <= k < cache_list@.len() ==> #[trigger] cache_list@[k] == all[k].1,
            decreases rest@.len(),
        {
            let (name, handler) = rest.pop().unwrap();
            names.push(name);
            cache_list.push(handler);
        }
        let out = LocalCacheClear { names, cache_list };
        proof {
            assert(out@.names =~= all.map_values(|e: (String, T)| e.0@));
            assert(out@.handlers =~= all.map_values(|e: (String, T)| e.1));
        }
        out
    }

    /// Registers one more handler, after those that are registered, under
    /// the name that it gives for its cache.
    pub fn register(&mut self, handler: T)
        requires
            old(self).wf(),
        ensures
            final(self).wf(),
            final(self)@.handlers == old(self)@.handlers.push(handler),
            final(self)@.names.len() == old(self)@.names.len() + 1,
            final(self)@.names.drop_last() == old(self)@.names,
            handler.is_cache_name(final(self)@.names.last()),
    {
        let ghost before = self@;
        let name = String::from_str(handler.cache_name());
        self.names.push(name);
        self.cache_list.push(handler);
        proof {
            assert(self@.names.drop_last() =~= before.names);
        }
    }

    /// The type tag of the notices that this listener takes.
    pub fn msg_type(&self) -> (tag: u8)
        ensures
            tag == REMOTE_NOTIFY_TYPE_CACHE,
    {
        REMOTE_NOTIFY_TYPE_CACHE
    }

    /// The handlers, for a caller that wants to look at its caches.
    pub fn handlers(&self) -> (out: &Vec<T>)
        ensures
            out@ == self@.handlers,
    {
        &self.cache_list
    }

    /// The names that the handlers are registered under, in their order.
    pub fn names(&self) -> (out: &Vec<String>)
        ensures
            text_views(out@) == self@.names,
    {
        &self.names
    }

    /// The place of the handler that a notice for the cache `name` goes to.
    pub fn route(&self, name: &str) -> (at: Option<usize>)
        ensures
            match at {
                Some(i) => first_handler(self@.names, name@) == Some(i as int),
                None => first_handler(self@.names, name@) is None,
            },
    {
        let ghost all = self@.names;
        let mut i: usize = 0;
        proof {
            assert(all.take(0) =~= Seq::empty());
        }
        while i < self.names.len()
            invariant
                i <= all.len(),
                all == self@.names,
                first_handler(all.take(i as int), name@) is None,
            decreases all.len() - i,
        {
            proof {
                assert(all.take(i + 1).drop_last() =~= all.take(i as int));
                assert(all.take(i + 1).last() == self.names@[i as int]@);
                lemma_first_prefix(all, name@, i as int + 1);
            }
            if same_name(self.names[i].as_str(), name) {
                return Some(i);
            }
            i += 1;
        }
        proof {
            assert(all.take(i as int) =~= all);
        }
        None
    }

    /// Takes in a notice: the first handler of the cache that it names is
    /// called with the payload. A notice for a cache that this process does
    /// not have is dropped, and changes nothing.
    pub fn run(&mut self, msg: &LocalCacheMessage) -> (outcome: ClearOutcome)
        requires
            old(self).wf(),
        ensures
            final(self).wf(),
            delivered(old(self)@, *msg, final(self)@, outcome),
    {
        let ghost pre = self@;
        match self.route(msg.cache_name.as_str()) {
            Some(i) => {
                proof {
                    lemma_first_handler(pre.names, msg.cache_name@);
                }
                let handler = &mut self.cache_list[i];
                let answer = handler.clear_from_message(msg.message.as_str());
                match answer {
                    Ok(_) => ClearOutcome::Cleared(i),
                    Err(e) => ClearOutcome::Failed(i, e),
                }
            },
            None => ClearOutcome::Unmatched,
        }
    }
}

/// Hands a notice to every listener of `instances`, as the broadcast does
/// to the processes of a system, and tells what became of it in each.
///
/// In every process that has the cache, its handler is called; a notice
/// for a cache that no process has leaves every process as it was.
pub fn broadcast<T: LocalCacheClearItem>(
    instances: &mut Vec<LocalCacheClear<T>>,
    msg: &LocalCacheMessage,
) -> (outcomes: Vec<ClearOutcome>)
    requires
        forall|k: int| 0 <= k < old(instances)@.len() ==> (#[trigger] old(instances)@[k]).wf(),
    ensures
        final(instances)@.len() == old(instances)@.len(),
        outcomes@.len() == old(instances)@.len(),
        forall|k: int|
            0 <= k < old(instances)@.len() ==> (#[trigger] final(instances)@[k]).wf() && delivered(
                old(instances)@[k]@,
                *msg,
                final(instances)@[k]@,
                outcomes@[k],
            ),
{
    let ghost pre = instances@;
    let mut outcomes: Vec<ClearOutcome> = Vec::new();
    let mut k: usize = 0;
    while k < instances.len()
        invariant
            k <= instances@.len(),
            instances@.len() == pre.len(),
            outcomes@.len() == k,
            forall|j: int|
                0 <= j < k ==> (#[trigger] instances@[j]).wf() && delivered(
                    pre[j]@,
                    *msg,
                    instances@[j]@,
                    outcomes@[j],
                ),
            forall|j: int| k <= j < pre.len() ==> #[trigger] instances@[j] == pre[j],
            forall|j: int| 0 <= j < pre.len() ==> (#[trigger] pre[j]).wf(),
        decreases instances@.len() - k,
    {
        assert(instances@[k as int] == pre[k as int]);
        let instance = &mut instances[k];
        let outcome = instance.run(msg);
        outcomes.push(outcome);
        k += 1;
    }
    outcomes
}

} // verus!
