//! Stable widget identifiers computed from a widget's path (and optional key).

use vstd::prelude::*;
use std::hash::{Hash, Hasher};

verus! {

/// The `FxHasher` digest of the path indices followed by the key.
pub uninterp spec fn fx_path_key_hash(path: Seq<usize>, key: Option<Seq<char>>) -> u64;

/// The characters of an optional key.
pub open spec fn key_view(key: Option<&str>) -> Option<Seq<char>> {
    match key {
        Some(k) => Some(k@),
        None => None,
    }
}

/// Feeds each path index (`usize::hash`) and then the key (`str::hash`) to a
/// fresh `rustc_hash::FxHasher` and returns `finish()`. The digest is named
/// `fx_path_key_hash` of the path and key; nothing more is stated of it. The
/// hasher is unseeded, so equal inputs give equal digests.
#[verifier::external_body]
fn fx_digest(path: &[usize], key: Option<&str>) -> (id: u64)
    ensures
        id == fx_path_key_hash(path@, key_view(key)),
{
    let mut hasher = rustc_hash::FxHasher::default();
    for index in path {
        index.hash(&mut hasher);
    }
    if let Some(k) = key {
        k.hash(&mut hasher);
    }
    hasher.finish()
}

/// A widget identifier: a stable number derived from the widget's path in the
/// tree and an optional key.
#[derive(Debug, Clone, Copy, PartialEq, Eq, Hash, Structural)]
pub struct WidgetId {
    id: u64,
}

impl WidgetId {
    pub closed spec fn value(&self) -> u64 {
        self.id
    }

    /// The identifier of the widget at `path`.
    pub fn from_path(path: &[usize]) -> (w: Self)
        ensures
            w.value() == fx_path_key_hash(path@, None),
    {
        Self::from_path_and_key(path, None)
    }

    /// The identifier of the widget at `path` with the given key.
    pub fn from_path_and_key(path: &[usize], key: Option<&str>) -> (w: Self)
        ensures
            w.value() == fx_path_key_hash(path@, key_view(key)),
    {
        let id = Self::compute_stable_id(path, key);
        WidgetId { id }
    }

    /// The stable number of the widget at `path` with the given key.
    pub fn compute_stable_id(path: &[usize], key: Option<&str>) -> (id: u64)
        ensures
            id == fx_path_key_hash(path@, key_view(key)),
    {
        fx_digest(path, key)
    }

    /// The numeric value.
    pub fn id(&self) -> (v: u64)
        ensures
            v == self.value(),
    {
        self.id
    }

    /// Two identifiers are equal exactly when their numbers are.
    pub proof fn lemma_value_determines(a: Self, b: Self)
        ensures
            (a == b) == (a.value() == b.value()),
    {
    }
}

impl Default for WidgetId {
    /// The identifier of the root (the empty path).
    fn default() -> (w: Self)
        ensures
            w.value() == fx_path_key_hash(Seq::<usize>::empty(), None),
    {
        let path: Vec<usize> = Vec::new();
        Self::from_path(path.as_slice())
    }
}

/// The path of child `index` under `path`.
pub fn child_path(path: &[usize], index: usize) -> (v: Vec<usize>)
    ensures
        v@ == path@.push(index),
{
    let mut v: Vec<usize> = Vec::new();
    let mut i: usize = 0;
    while i < path.len()
        invariant
            i <= path@.len(),
            v@ == path@.take(i as int),
        decreases path@.len() - i,
    {
        v.push(path[i]);
        i = i + 1;
        proof {
            assert(v@ =~= path@.take(i as int));
        }
    }
    v.push(index);
    proof {
        assert(path@.take(path@.len() as int) =~= path@);
    }
    v
}

/// Stability: the same path and key always give the same identifier, so a
/// rebuilt widget tree keeps its identifiers.
pub proof fn law_id_stable(p1: Seq<usize>, k1: Option<Seq<char>>, p2: Seq<usize>, k2: Option<Seq<char>>)
    requires
        p1 == p2,
        k1 == k2,
    ensures
        fx_path_key_hash(p1, k1) == fx_path_key_hash(p2, k2),
{
}

} // verus!
