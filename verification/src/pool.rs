//! The registry of live connections and the routing of editor requests.
//!
//! A pool maps caller-chosen keys to connections. Registration is
//! all-or-nothing: a key appears only once the caller's socket setup
//! succeeded. Requests are routed by matching each connection's path
//! pattern against the caller's context: evaluation is multicast to
//! every match, definition lookup and completion refresh go to one
//! match. The sockets themselves belong to the caller, which performs
//! the returned write requests and runs the response loops.

use vstd::prelude::*;

use crate::lang::Lang;
use crate::pattern::{pattern_of, regex_is_match, regex_matches};
use crate::text::concat_str;

verus! {

/// The editor's routing input for one request: the current file path
/// and an optional namespace override.
pub struct Context {
    pub path: String,
    pub ns: Option<String>,
}

/// The namespace a generated request runs in: the caller's override when
/// present, else the target connection's default user namespace.
pub open spec fn selected_ns(ns_override: Option<String>, user_ns: Seq<char>) -> Seq<char> {
    match ns_override {
        Some(ns) => ns@,
        None => user_ns,
    }
}

fn resolve_ns(ns_override: &Option<String>, user_ns: &String) -> (r: String)
    ensures
        r@ == selected_ns(*ns_override, user_ns@),
{
    match ns_override {
        Some(ns) => ns.clone(),
        None => user_ns.clone(),
    }
}

/// A failure surfaced to the caller of a pool operation.
#[derive(Debug)]
pub enum PoolError {
    /// A disconnect was asked for a key that is not registered.
    ConnectionMissing { key: String },
    /// An eval or definition lookup found no connection whose pattern
    /// matches the queried path.
    NoMatchingConnections { path: String },
}

/// One evaluation write the caller must perform: send `code` on the
/// eval channel of the connection registered under `key`, in namespace
/// `ns`, phrased for `lang`.
pub struct EvalRequest {
    pub key: String,
    pub code: String,
    pub ns: String,
    pub lang: Lang,
}

/// One definition-lookup write the caller must perform on the definition
/// channel of the connection registered under `key`.
pub struct DefinitionRequest {
    pub key: String,
    pub name: String,
    pub ns: String,
    pub lang: Lang,
}

/// One completion-refresh write the caller must perform on the
/// completion channel of the connection registered under `key`; the
/// generated listing form needs the namespace and the connection's core
/// namespace.
pub struct CompletionRequest {
    pub key: String,
    pub ns: String,
    pub core_ns: String,
    pub lang: Lang,
}

/// The initial write the eval channel needs before its loop starts:
/// load the support code into the remote runtime, in the connection's
/// user namespace. `label` is the tag the loops log under.
pub struct BootstrapRequest {
    pub label: String,
    pub ns: String,
    pub lang: Lang,
}

/// One live session against one remote address. The three channel
/// sockets (eval, definition lookup, completion) are the caller's; kept
/// here is what routing and request generation read: the address, the
/// namespaces derived from the language, and the path pattern.
pub struct Connection {
    pub user_ns: String,
    pub core_ns: String,
    pub addr: String,
    pub expr: regex::Regex,
    pub lang: Lang,
}

impl Connection {
    /// Both namespaces are the ones the language derives; they are fixed
    /// when the connection is created and never change.
    pub open spec fn wf(self) -> bool {
        self.user_ns@ == self.lang.user_ns_spec() && self.core_ns@ == self.lang.core_ns_spec()
    }

    /// Whether this connection routes requests for `path`.
    pub open spec fn matches_path(self, path: Seq<char>) -> bool {
        regex_matches(pattern_of(self.expr), path)
    }

    /// Builds the record of one new session: the namespaces are derived
    /// from `lang` here, once. The caller opens the three sockets
    /// against `addr`; if any open fails, the record is discarded and
    /// nothing is registered.
    pub fn connect(addr: String, expr: regex::Regex, lang: Lang) -> (c: Connection)
        ensures
            c.wf(),
            c.addr@ == addr@,
            c.expr == expr,
            c.lang == lang,
    {
        Connection { user_ns: lang.user_ns(), core_ns: lang.core_ns(), addr, expr, lang }
    }

    /// The caller starts the three response loops (they block on the
    /// sockets), dispatching each stream item through the response
    /// module under the returned label; before the eval loop starts it
    /// must perform the returned bootstrap write on the eval channel.
    pub fn start_response_loops(&self, label: &str) -> (r: BootstrapRequest)
        ensures
            r.label@ == label@,
            r.ns@ == self.user_ns@,
            r.lang == self.lang,
    {
        BootstrapRequest { label: label.to_owned(), ns: self.user_ns.clone(), lang: self.lang }
    }
}

/// One registered connection and the key it is registered under.
pub struct PoolEntry {
    pub key: String,
    pub conn: Connection,
}

impl PoolEntry {
    pub open spec fn matches_path(self, path: Seq<char>) -> bool {
        self.conn.matches_path(path)
    }
}

/// The entries of `s` whose connection matches `path`, in order.
pub open spec fn matching_of(s: Seq<PoolEntry>, path: Seq<char>) -> Seq<PoolEntry> {
    s.filter(|e: PoolEntry| e.matches_path(path))
}

/// The registry of live connections, keyed by caller-chosen identifier.
pub struct Pool {
    conns: Vec<PoolEntry>,
}

impl Pool {
    /// The registered entries. The order is the order of registration
    /// and carries no meaning; keys are unique (`wf`).
    pub closed spec fn entries(self) -> Seq<PoolEntry> {
        self.conns@
    }

    /// Keys are unique — one connection per key — and every connection's
    /// namespaces are the ones its language derives.
    pub open spec fn wf(self) -> bool {
        &&& forall|i: int, j: int|
            0 <= i < j < self.entries().len() ==> (#[trigger] self.entries()[i]).key@ != (
            #[trigger] self.entries()[j]).key@
        &&& forall|i: int| 0 <= i < self.entries().len() ==> (#[trigger] self.entries()[i]).conn.wf()
    }

    pub open spec fn has_key(self, key: Seq<char>) -> bool {
        exists|i: int| 0 <= i < self.entries().len() && (#[trigger] self.entries()[i]).key@ == key
    }

    /// The entries whose connection matches `path`, in order.
    pub open spec fn matching(self, path: Seq<char>) -> Seq<PoolEntry> {
        matching_of(self.entries(), path)
    }

    pub fn new() -> (p: Pool)
        ensures
            p.entries() == Seq::<PoolEntry>::empty(),
            p.wf(),
    {
        Pool { conns: Vec::new() }
    }

    pub fn has_connections(&self) -> (r: bool)
        ensures
            r == (self.entries().len() != 0),
    {
        self.conns.len() != 0
    }

    /// The registered connections, for the caller to enumerate.
    pub fn iter(&self) -> (r: &Vec<PoolEntry>)
        ensures
            r@ == self.entries(),
    {
        &self.conns
    }

    /// The index of the entry registered under `key`, if any.
    fn index_of_key(&self, key: &str) -> (r: Option<usize>)
        ensures
            match r {
                Some(i) => i < self.entries().len() && self.entries()[i as int].key@ == key@,
                None => forall|j: int|
                    0 <= j < self.entries().len() ==> (#[trigger] self.entries()[j]).key@ != key@,
            },
    {
        let owned: String = key.to_owned();
        let mut i: usize = 0;
        while i < self.conns.len()
            invariant
                i <= self.entries().len(),
                owned@ == key@,
                forall|j: int| 0 <= j < i ==> (#[trigger] self.entries()[j]).key@ != key@,
            decreases self.entries().len() - i,
        {
            if self.conns[i].key == owned {
                return Some(i);
            }
            i += 1;
        }
        None
    }

    /// Registers `conn` under `key` — but only when `setup`, the outcome
    /// of the caller's work (opening the three sockets, starting the
    /// loops and writing the bootstrap form), is a success; a failed
    /// setup leaves the pool exactly as it was and hands the failure
    /// back. A key already in use is overwritten; the caller then tears
    /// the replaced connection down as it would on a disconnect.
    pub fn connect(&mut self, key: &str, conn: Connection, setup: Result<(), String>) -> (r: Result<
        (),
        String,
    >)
        requires
            old(self).wf(),
            conn.wf(),
        ensures
            final(self).wf(),
            match setup {
                Result::Ok(_) => r is Ok,
                Result::Err(m) => *final(self) == *old(self) && (r matches Result::Err(rm) && rm
                    == m),
            },
            setup is Ok ==> ({
                let o = old(self).entries();
                let e = final(self).entries();
                if old(self).has_key(key@) {
                    exists|i: int|
                        0 <= i < o.len() && (#[trigger] o[i]).key@ == key@ && e.len() == o.len()
                            && e[i].key@ == key@ && e[i].conn == conn && (forall|j: int|
                            0 <= j < o.len() && j != i ==> e[j] == o[j])
                } else {
                    e.len() == o.len() + 1 && e[o.len() as int].key@ == key@
                        && e[o.len() as int].conn == conn && (forall|j: int|
                        0 <= j < o.len() ==> e[j] == o[j])
                }
            }),
    {
        match setup {
            Result::Err(m) => Result::Err(m),
            Result::Ok(_) => {
                let entry = PoolEntry { key: key.to_owned(), conn };
                let ghost ge = entry;
                match self.index_of_key(key) {
                    Some(i) => {
                        let ghost o = self.entries();
                        self.conns.remove(i);
                        self.conns.insert(i, entry);
                        proof {
                            let e = self.entries();
                            assert(e =~= o.update(i as int, ge));
                            assert forall|a: int, b: int|
                                0 <= a < b < e.len() implies (#[trigger] e[a]).key@ != (
                            #[trigger] e[b]).key@ by {
                                if a != i && b != i {
                                    assert(e[a] == o[a]);
                                    assert(e[b] == o[b]);
                                }
                            }
                            assert forall|a: int| 0 <= a < e.len() implies (
                            #[trigger] e[a]).conn.wf() by {
                                if a != i {
                                    assert(e[a] == o[a]);
                                }
                            }
                        }
                    },
                    None => {
                        let ghost o = self.entries();
                        self.conns.push(entry);
                        proof {
                            let e = self.entries();
                            assert forall|a: int, b: int|
                                0 <= a < b < e.len() implies (#[trigger] e[a]).key@ != (
                            #[trigger] e[b]).key@ by {
                                if b < o.len() {
                                    assert(e[a] == o[a]);
                                    assert(e[b] == o[b]);
                                } else {
                                    assert(e[a] == o[a]);
                                    assert(e[b] == ge);
                                }
                            }
                            assert forall|a: int| 0 <= a < e.len() implies (
                            #[trigger] e[a]).conn.wf() by {
                                if a < o.len() {
                                    assert(e[a] == o[a]);
                                }
                            }
                        }
                    },
                }
                Result::Ok(())
            },
        }
    }

    /// Removes the connection registered under `key`; the caller then
    /// performs its teardown (a best-effort quit on the eval channel,
    /// whose failure is logged, never raised). An absent key fails with
    /// `ConnectionMissing` and leaves the pool exactly as it was.
    pub fn disconnect(&mut self, key: &str) -> (r: Result<(), PoolError>)
        requires
            old(self).wf(),
        ensures
            final(self).wf(),
            match r {
                Result::Ok(_) => exists|i: int|
                    0 <= i < old(self).entries().len() && (#[trigger] old(self).entries()[i]).key@
                        == key@ && final(self).entries() == old(self).entries().remove(i),
                Result::Err(e) => *final(self) == *old(self) && !old(self).has_key(key@) && (e matches
                    PoolError::ConnectionMissing { key: k } && k@ == key@),
            },
    {
        match self.index_of_key(key) {
            Some(i) => {
                let ghost o = self.entries();
                self.conns.remove(i);
                proof {
                    assert forall|a: int, b: int|
                        0 <= a < b < self.entries().len() implies (
                    #[trigger] self.entries()[a]).key@ != (#[trigger] self.entries()[b]).key@ by {
                        assert(self.entries()[a] == if a < i as int {
                            o[a]
                        } else {
                            o[a + 1]
                        });
                        assert(self.entries()[b] == if b < i as int {
                            o[b]
                        } else {
                            o[b + 1]
                        });
                    }
                    assert forall|a: int| 0 <= a < self.entries().len() implies (
                    #[trigger] self.entries()[a]).conn.wf() by {
                        assert(self.entries()[a] == if a < i as int {
                            o[a]
                        } else {
                            o[a + 1]
                        });
                    }
                }
                Result::Ok(())
            },
            None => Result::Err(PoolError::ConnectionMissing { key: key.to_owned() }),
        }
    }

    /// Multicasts an evaluation: every connection whose pattern matches
    /// the context's path gets one write of `code`, in the override
    /// namespace when the context carries one, else in that connection's
    /// own user namespace. The returned requests name exactly the
    /// matched keys, in registry order. With zero matches nothing is to
    /// be written and the queried path comes back in the error.
    pub fn eval(&self, code: &str, ctx: &Context) -> (r: Result<Vec<EvalRequest>, PoolError>)
        ensures
            ({
                let m = self.matching(ctx.path@);
                match r {
                    Result::Ok(reqs) => m.len() > 0 && reqs@.len() == m.len() && (forall|i: int|
                        0 <= i < m.len() ==> (#[trigger] reqs@[i]).key@ == m[i].key@
                            && reqs@[i].code@ == code@ && reqs@[i].ns@ == selected_ns(
                            ctx.ns,
                            m[i].conn.user_ns@,
                        ) && reqs@[i].lang == m[i].conn.lang),
                    Result::Err(e) => m.len() == 0 && (e matches PoolError::NoMatchingConnections {
                        path,
                    } && path@ == ctx.path@),
                }
            }),
    {
        let ghost path = ctx.path@;
        let mut reqs: Vec<EvalRequest> = Vec::new();
        let mut i: usize = 0;
        proof {
            assert(self.entries().take(0) =~= Seq::<PoolEntry>::empty());
            reveal(Seq::filter);
        }
        while i < self.conns.len()
            invariant
                i <= self.entries().len(),
                path == ctx.path@,
                reqs@.len() == matching_of(self.entries().take(i as int), path).len(),
                forall|k: int|
                    0 <= k < reqs@.len() ==> {
                        let m = matching_of(self.entries().take(i as int), path);
                        (#[trigger] reqs@[k]).key@ == m[k].key@ && reqs@[k].code@ == code@
                            && reqs@[k].ns@ == selected_ns(ctx.ns, m[k].conn.user_ns@)
                            && reqs@[k].lang == m[k].conn.lang
                    },
            decreases self.entries().len() - i,
        {
            let entry = &self.conns[i];
            let ghost prefix = self.entries().take(i as int);
            let ghost next = self.entries().take(i as int + 1);
            proof {
                reveal(Seq::filter);
                assert(next.drop_last() =~= prefix);
                assert(next.last() == self.entries()[i as int]);
            }
            if regex_is_match(&entry.conn.expr, ctx.path.as_str()) {
                let req = EvalRequest {
                    key: entry.key.clone(),
                    code: code.to_owned(),
                    ns: resolve_ns(&ctx.ns, &entry.conn.user_ns),
                    lang: entry.conn.lang,
                };
                proof {
                    assert(matching_of(next, path) == matching_of(prefix, path).push(
                        self.entries()[i as int],
                    ));
                }
                reqs.push(req);
            } else {
                proof {
                    assert(matching_of(next, path) == matching_of(prefix, path));
                }
            }
            i += 1;
        }
        proof {
            assert(self.entries().take(self.entries().len() as int) =~= self.entries());
        }
        if reqs.len() != 0 {
            Result::Ok(reqs)
        } else {
            Result::Err(PoolError::NoMatchingConnections { path: ctx.path.clone() })
        }
    }

    /// Routes a definition lookup for `name` to one matching connection
    /// — single dispatch, unlike `eval`; which match is taken is not
    /// specified. With zero matches the queried path comes back in the
    /// error.
    pub fn go_to_definition(&self, name: &str, ctx: &Context) -> (r: Result<
        DefinitionRequest,
        PoolError,
    >)
        ensures
            match r {
                Result::Ok(req) => exists|i: int|
                    0 <= i < self.entries().len() && (#[trigger] self.entries()[i]).matches_path(
                        ctx.path@,
                    ) && req.key@ == self.entries()[i].key@ && req.name@ == name@ && req.ns@
                        == selected_ns(ctx.ns, self.entries()[i].conn.user_ns@) && req.lang
                        == self.entries()[i].conn.lang,
                Result::Err(e) => (forall|i: int|
                    0 <= i < self.entries().len() ==> !(#[trigger] self.entries()[i]).matches_path(
                        ctx.path@,
                    )) && (e matches PoolError::NoMatchingConnections { path } && path@
                    == ctx.path@),
            },
    {
        let mut i: usize = 0;
        while i < self.conns.len()
            invariant
                i <= self.entries().len(),
                forall|j: int|
                    0 <= j < i ==> !(#[trigger] self.entries()[j]).matches_path(ctx.path@),
            decreases self.entries().len() - i,
        {
            let entry = &self.conns[i];
            if regex_is_match(&entry.conn.expr, ctx.path.as_str()) {
                return Result::Ok(
                    DefinitionRequest {
                        key: entry.key.clone(),
                        name: name.to_owned(),
                        ns: resolve_ns(&ctx.ns, &entry.conn.user_ns),
                        lang: entry.conn.lang,
                    },
                );
            }
            i += 1;
        }
        Result::Err(PoolError::NoMatchingConnections { path: ctx.path.clone() })
    }

    /// Routes a completion refresh to one matching connection — single
    /// dispatch, like `go_to_definition`. Unlike the other two
    /// operations, zero matches is not an error: the refresh silently
    /// does nothing.
    pub fn update_completions(&self, ctx: &Context) -> (r: Option<CompletionRequest>)
        ensures
            match r {
                Some(req) => exists|i: int|
                    0 <= i < self.entries().len() && (#[trigger] self.entries()[i]).matches_path(
                        ctx.path@,
                    ) && req.key@ == self.entries()[i].key@ && req.ns@ == selected_ns(
                        ctx.ns,
                        self.entries()[i].conn.user_ns@,
                    ) && req.core_ns@ == self.entries()[i].conn.core_ns@ && req.lang
                        == self.entries()[i].conn.lang,
                None => forall|i: int|
                    0 <= i < self.entries().len() ==> !(#[trigger] self.entries()[i]).matches_path(
                        ctx.path@,
                    ),
            },
    {
        let mut i: usize = 0;
        while i < self.conns.len()
            invariant
                i <= self.entries().len(),
                forall|j: int|
                    0 <= j < i ==> !(#[trigger] self.entries()[j]).matches_path(ctx.path@),
            decreases self.entries().len() - i,
        {
            let entry = &self.conns[i];
            if regex_is_match(&entry.conn.expr, ctx.path.as_str()) {
                return Some(
                    CompletionRequest {
                        key: entry.key.clone(),
                        ns: resolve_ns(&ctx.ns, &entry.conn.user_ns),
                        core_ns: entry.conn.core_ns.clone(),
                        lang: entry.conn.lang,
                    },
                );
            }
            i += 1;
        }
        None
    }
}

impl Default for Pool {
    /// An empty pool.
    fn default() -> (p: Pool)
        ensures
            p.entries() == Seq::<PoolEntry>::empty(),
            p.wf(),
    {
        Pool::new()
    }
}

/// In a well-formed pool a key names at most one connection: two entries
/// sharing a key are the same entry.
pub proof fn lemma_one_connection_per_key(p: Pool, i: int, j: int)
    requires
        p.wf(),
        0 <= i < p.entries().len(),
        0 <= j < p.entries().len(),
        p.entries()[i].key@ == p.entries()[j].key@,
    ensures
        i == j,
{
    if i < j {
        assert(p.entries()[i].key@ != p.entries()[j].key@);
    }
    if j < i {
        assert(p.entries()[j].key@ != p.entries()[i].key@);
    }
}

/// The matched entries carry exactly the matching keys: a key appears in
/// `matching(path)` — the entries an `eval` writes to — if and only if
/// it is registered with a connection whose pattern matches `path`. With
/// `lemma_one_connection_per_key` this makes the key list an `eval`
/// returns, as a set, exactly the set of matched registered keys.
pub proof fn lemma_matching_membership(p: Pool, path: Seq<char>, key: Seq<char>)
    ensures
        (exists|i: int|
            0 <= i < p.matching(path).len() && (#[trigger] p.matching(path)[i]).key@ == key) <==> (
        exists|j: int|
            0 <= j < p.entries().len() && (#[trigger] p.entries()[j]).key@ == key
                && p.entries()[j].matches_path(path)),
{
    let pred = |e: PoolEntry| e.matches_path(path);
    let m = p.matching(path);
    if exists|i: int| 0 <= i < m.len() && (#[trigger] m[i]).key@ == key {
        let i = choose|i: int| 0 <= i < m.len() && (#[trigger] m[i]).key@ == key;
        p.entries().lemma_filter_pred(pred, i);
        assert(m.contains(m[i]));
        p.entries().lemma_filter_contains_rev(pred, m[i]);
        let j = choose|j: int| 0 <= j < p.entries().len() && p.entries()[j] == m[i];
        assert(p.entries()[j].key@ == key && p.entries()[j].matches_path(path));
    }
    if exists|j: int|
        0 <= j < p.entries().len() && (#[trigger] p.entries()[j]).key@ == key
            && p.entries()[j].matches_path(path) {
        let j = choose|j: int|
            0 <= j < p.entries().len() && (#[trigger] p.entries()[j]).key@ == key
                && p.entries()[j].matches_path(path);
        p.entries().lemma_filter_contains(pred, j);
        assert(m.contains(p.entries()[j]));
        let i = choose|i: int| 0 <= i < m.len() && m[i] == p.entries()[j];
        assert(0 <= i < m.len() && m[i].key@ == key);
    }
}

/// Filtering entries with pairwise distinct keys keeps the keys pairwise
/// distinct.
proof fn lemma_filter_keys_distinct(s: Seq<PoolEntry>, path: Seq<char>)
    requires
        forall|i: int, j: int|
            0 <= i < j < s.len() ==> (#[trigger] s[i]).key@ != (#[trigger] s[j]).key@,
    ensures
        forall|i: int, j: int|
            0 <= i < j < matching_of(s, path).len() ==> (#[trigger] matching_of(s, path)[i]).key@
                != (#[trigger] matching_of(s, path)[j]).key@,
    decreases s.len(),
{
    reveal(Seq::filter);
    let pred = |e: PoolEntry| e.matches_path(path);
    let m = matching_of(s, path);
    if s.len() > 0 {
        let sub = s.drop_last();
        lemma_filter_keys_distinct(sub, path);
        let msub = matching_of(sub, path);
        if pred(s.last()) {
            assert(m == msub.push(s.last()));
            assert forall|i: int, j: int| 0 <= i < j < m.len() implies (#[trigger] m[i]).key@ != (
            #[trigger] m[j]).key@ by {
                if j < msub.len() {
                    assert(m[i] == msub[i] && m[j] == msub[j]);
                } else {
                    assert(m[j] == s.last());
                    assert(m[i] == msub[i]);
                    assert(msub.contains(msub[i]));
                    sub.lemma_filter_contains_rev(pred, msub[i]);
                    let k = choose|k: int| 0 <= k < sub.len() && sub[k] == msub[i];
                    assert(s[k] == m[i] && s[s.len() - 1] == s.last());
                }
            }
        } else {
            assert(m == msub);
        }
    }
}

/// An `eval` multicast writes to each matched key once: in a well-formed
/// pool the matched entries, and so the requests `eval` returns, carry
/// pairwise distinct keys.
pub proof fn lemma_matching_keys_unique(p: Pool, path: Seq<char>)
    requires
        p.wf(),
    ensures
        forall|i: int, j: int|
            0 <= i < j < p.matching(path).len() ==> (#[trigger] p.matching(path)[i]).key@ != (
            #[trigger] p.matching(path)[j]).key@,
{
    lemma_filter_keys_distinct(p.entries(), path);
}

/// The label a connection's loops log under: the key in brackets.
pub fn connection_label(key: &str) -> (r: String)
    ensures
        r@ == "["@ + key@ + "]"@,
{
    let r = concat_str(&concat_str("[", key), "]");
    proof {
        assert(r@ =~= "["@ + key@ + "]"@);
    }
    r
}

} // verus!
