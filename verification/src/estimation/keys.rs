//! Keys of the latency maps: one method, a (root, parent, child) edge, or a
//! (root, local) pair, each made of method ids.
use vstd::prelude::*;

use crate::registry::{names_of, MethodId, MethodRegistry};
use crate::text::{append_decimal, decimal_text};

verus! {

/// A key of a latency map: a small tuple of method ids, compared by value.
pub trait EstimateKey: Copy + Sized {
    /// The ids the key is made of; two keys are equal iff their ids are.
    spec fn ids(&self) -> (u64, u64, u64);

    /// Keys with the same ids are the same key.
    proof fn lemma_ids_injective(a: Self, b: Self)
        requires
            a.ids() == b.ids(),
        ensures
            a == b,
    ;

    /// Whether `self` and `other` are the same key.
    fn same_key(&self, other: &Self) -> (r: bool)
        ensures
            r == (self.ids() == other.ids()),
    ;
}

/// A single-method key.
#[derive(Debug, Clone, Copy, PartialEq, Eq, Hash, Structural)]
pub struct MethodKey(pub MethodId);

impl EstimateKey for MethodKey {
    open spec fn ids(&self) -> (u64, u64, u64) {
        (self.0.0, 0, 0)
    }

    proof fn lemma_ids_injective(a: Self, b: Self) {
    }

    fn same_key(&self, other: &Self) -> (r: bool) {
        self.0.0 == other.0.0
    }
}

/// Builder of a [`ParentToChildKey`] that knows the root method.
#[derive(Debug, Clone, Copy, PartialEq, Eq, Structural)]
pub struct ParentToChildKeyRoot(pub MethodId);

/// Builder of a [`ParentToChildKey`] that knows the root and parent methods.
#[derive(Debug, Clone, Copy, PartialEq, Eq, Structural)]
pub struct ParentToChildKeyBuilder(pub MethodId, pub MethodId);

/// A parent-to-child RPC edge, scoped by the root (ingress) method of the
/// request.
#[derive(Debug, Clone, Copy, PartialEq, Eq, Hash, Structural)]
pub struct ParentToChildKey(pub MethodId, pub MethodId, pub MethodId);

impl ParentToChildKey {
    /// Starts a key under the root method `id`.
    pub fn root_rpc_method(id: MethodId) -> (b: ParentToChildKeyRoot)
        ensures
            b == ParentToChildKeyRoot(id),
    {
        ParentToChildKeyRoot(id)
    }

    /// The root method.
    pub fn root(&self) -> (r: MethodId)
        ensures
            r == self.0,
    {
        self.0
    }

    /// The parent method.
    pub fn parent(&self) -> (r: MethodId)
        ensures
            r == self.1,
    {
        self.1
    }

    /// The child method.
    pub fn child(&self) -> (r: MethodId)
        ensures
            r == self.2,
    {
        self.2
    }
}

impl ParentToChildKeyRoot {
    /// Adds the parent method `id`.
    pub fn parent_rpc_method(self, id: MethodId) -> (b: ParentToChildKeyBuilder)
        ensures
            b == ParentToChildKeyBuilder(self.0, id),
    {
        ParentToChildKeyBuilder(self.0, id)
    }
}

impl ParentToChildKeyBuilder {
    /// Completes the key with the child method `id`.
    pub fn child_rpc_method(self, id: MethodId) -> (k: ParentToChildKey)
        ensures
            k == ParentToChildKey(self.0, self.1, id),
    {
        ParentToChildKey(self.0, self.1, id)
    }
}

impl EstimateKey for ParentToChildKey {
    open spec fn ids(&self) -> (u64, u64, u64) {
        (self.0.0, self.1.0, self.2.0)
    }

    proof fn lemma_ids_injective(a: Self, b: Self) {
    }

    fn same_key(&self, other: &Self) -> (r: bool) {
        self.0.0 == other.0.0 && self.1.0 == other.1.0 && self.2.0 == other.2.0
    }
}

/// Builder of a [`RootToLocalKey`] that knows the root method.
#[derive(Debug, Clone, Copy, PartialEq, Eq, Structural)]
pub struct RootToLocalKeyBuilder(pub MethodId);

/// A (root method, local method) pair.
#[derive(Debug, Clone, Copy, PartialEq, Eq, Hash, Structural)]
pub struct RootToLocalKey(pub MethodId, pub MethodId);

impl RootToLocalKey {
    /// Starts a key under the root method `id`.
    pub fn root_rpc_method(id: MethodId) -> (b: RootToLocalKeyBuilder)
        ensures
            b == RootToLocalKeyBuilder(id),
    {
        RootToLocalKeyBuilder(id)
    }

    /// The root method.
    pub fn root(&self) -> (r: MethodId)
        ensures
            r == self.0,
    {
        self.0
    }

    /// The local method.
    pub fn local(&self) -> (r: MethodId)
        ensures
            r == self.1,
    {
        self.1
    }
}

impl RootToLocalKeyBuilder {
    /// Completes the key with the local method `id`.
    pub fn local_rpc_method(self, id: MethodId) -> (k: RootToLocalKey)
        ensures
            k == RootToLocalKey(self.0, id),
    {
        RootToLocalKey(self.0, id)
    }
}

impl EstimateKey for RootToLocalKey {
    open spec fn ids(&self) -> (u64, u64, u64) {
        (self.0.0, self.1.0, 0)
    }

    proof fn lemma_ids_injective(a: Self, b: Self) {
    }

    fn same_key(&self, other: &Self) -> (r: bool) {
        self.0.0 == other.0.0 && self.1.0 == other.1.0
    }
}

/// The readable name of a method id: `service::method` when registered,
/// otherwise `MethodId(n)`.
pub open spec fn method_name_text(names: Option<(Seq<char>, Seq<char>)>, id: u64) -> Seq<char> {
    match names {
        Some((s, m)) => s + "::"@ + m,
        None => "MethodId("@ + decimal_text(id) + ")"@,
    }
}

/// The readable name of `id` in `registry`.
pub fn format_method_name(registry: &MethodRegistry, id: MethodId) -> (s: String)
    ensures
        s@ == method_name_text(names_of(registry@, id.0), id.0),
{
    match registry.get_method_name(id) {
        Some((service, method)) => {
            let mut s = service;
            s.append("::");
            s.append(method.as_str());
            s
        },
        None => {
            let mut s = String::from_str("MethodId(");
            append_decimal(&mut s, id.0);
            s.append(")");
            s
        },
    }
}

/// The readable text of an edge key: `parent=>child`.
pub fn parent_to_child_text(registry: &MethodRegistry, key: ParentToChildKey) -> (s: String)
    ensures
        s@ == method_name_text(names_of(registry@, key.1.0), key.1.0) + "=>"@ + method_name_text(
            names_of(registry@, key.2.0),
            key.2.0,
        ),
{
    let mut s = format_method_name(registry, key.parent());
    s.append("=>");
    let c = format_method_name(registry, key.child());
    s.append(c.as_str());
    s
}

/// The readable text of a root-to-local key: `root=>local`.
pub fn root_to_local_text(registry: &MethodRegistry, key: RootToLocalKey) -> (s: String)
    ensures
        s@ == method_name_text(names_of(registry@, key.0.0), key.0.0) + "=>"@ + method_name_text(
            names_of(registry@, key.1.0),
            key.1.0,
        ),
{
    let mut s = format_method_name(registry, key.root());
    s.append("=>");
    let c = format_method_name(registry, key.local());
    s.append(c.as_str());
    s
}

} // verus!
