//! The two runtime flavours a connection can speak, and the namespace
//! names each one derives.

use vstd::prelude::*;

verus! {

/// Which flavour of runtime a connection talks to. Fixed when the
/// connection is created; decides the default user namespace and the
/// core (builtin) namespace used in generated requests.
#[derive(Clone, Copy, Debug, PartialEq, Eq, Structural)]
pub enum Lang {
    Clojure,
    ClojureScript,
}

impl Lang {
    /// The default namespace evaluations run in when the caller gives none.
    pub open spec fn user_ns_spec(self) -> Seq<char> {
        match self {
            Lang::Clojure => "user"@,
            Lang::ClojureScript => "cljs.user"@,
        }
    }

    /// The namespace holding the runtime's builtins, used when a
    /// completion-listing request is generated.
    pub open spec fn core_ns_spec(self) -> Seq<char> {
        match self {
            Lang::Clojure => "clojure.core"@,
            Lang::ClojureScript => "cljs.core"@,
        }
    }

    pub fn user_ns(self) -> (r: String)
        ensures
            r@ == self.user_ns_spec(),
    {
        match self {
            Lang::Clojure => "user".to_owned(),
            Lang::ClojureScript => "cljs.user".to_owned(),
        }
    }

    pub fn core_ns(self) -> (r: String)
        ensures
            r@ == self.core_ns_spec(),
    {
        match self {
            Lang::Clojure => "clojure.core".to_owned(),
            Lang::ClojureScript => "cljs.core".to_owned(),
        }
    }
}

/// The two flavours never share a default user namespace, so a log line
/// or a generated request always shows which runtime it belongs to.
pub proof fn lemma_user_ns_distinct()
    ensures
        Lang::Clojure.user_ns_spec() != Lang::ClojureScript.user_ns_spec(),
{
    reveal_strlit("user");
    reveal_strlit("cljs.user");
    assert("user"@.len() == 4);
    assert("cljs.user"@.len() == 9);
}

} // verus!
