//! Bind-group cache: maps (texture, smoothing) pairs to the index of the GPU
//! binding object (texture view plus point or linear sampler) that a backend
//! holds in creation order. Binding objects are created lazily on first use
//! and never evicted within a session.

use vstd::prelude::*;
use crate::key_cache::{distinct_keys, ensure_key, lemma_ensure_key_distinct};
use crate::types::{KelpError, KelpTextureId};

verus! {

/// Cache key of one binding object: the texture it binds and whether it
/// samples with linear (smooth) or point filtering.
#[derive(Debug, PartialEq, Eq, Structural, Hash, Clone, Copy)]
pub struct TextureBindGroupId {
    pub texture_id: KelpTextureId,
    pub smooth: bool,
}

/// Insertion-ordered cache of bind-group keys. The index of a key is the
/// index of its binding object on the backend side.
pub struct TextureBindGroupCache {
    pub keys: Vec<TextureBindGroupId>,
}

impl TextureBindGroupCache {
    /// No bind-group key is cached twice.
    pub open spec fn wf(self) -> bool {
        distinct_keys(self.keys@)
    }

    /// The key has a cached binding object.
    pub open spec fn spec_contains(self, k: TextureBindGroupId) -> bool {
        self.keys@.contains(k)
    }

    /// A fresh, empty cache.
    pub fn new() -> (r: Self)
        ensures
            r.wf(),
            r.keys@.len() == 0,
    {
        TextureBindGroupCache { keys: Vec::new() }
    }

    /// First index of the key, if cached.
    fn find(&self, key: TextureBindGroupId) -> (r: Option<usize>)
        ensures
            match r {
                Some(i) => i < self.keys@.len() && self.keys@[i as int] == key,
                None => !self.spec_contains(key),
            },
    {
        let n = self.keys.len();
        let mut i: usize = 0;
        while i < n
            invariant
                n == self.keys@.len(),
                i <= n,
                forall|j: int| 0 <= j < i ==> self.keys@[j] != key,
            decreases n - i,
        {
            let k = self.keys[i];
            if k.texture_id.id == key.texture_id.id && k.smooth == key.smooth {
                return Some(i);
            }
            i = i + 1;
        }
        None
    }

    /// Makes sure a binding object for this (texture, smoothing) pair is
    /// cached, creating nothing when it already is, and returns the key:
    /// ensuring twice with the same pair creates exactly one entry, and a
    /// successfully ensured key can always be looked up afterwards.
    pub fn get_valid_bind_group_id(&mut self, texture_id: KelpTextureId, smooth: bool) -> (r:
        TextureBindGroupId)
        requires
            old(self).wf(),
        ensures
            final(self).wf(),
            r == (TextureBindGroupId { texture_id, smooth }),
            final(self).keys@ == ensure_key(old(self).keys@, r),
            final(self).spec_contains(r),
    {
        let key = TextureBindGroupId { texture_id, smooth };
        match self.find(key) {
            Some(_) => key,
            None => {
                proof {
                    lemma_ensure_key_distinct(self.keys@, key);
                }
                self.keys.push(key);
                proof {
                    assert(self.keys@[old(self).keys@.len() as int] == key);
                }
                key
            },
        }
    }

    /// Index of the cached binding object for this key. Succeeds exactly
    /// when the key was ensured before; an unknown key fails with
    /// `InvalidBindGroupId`.
    pub fn get_bind_group(&self, id: &TextureBindGroupId) -> (r: Result<usize, KelpError>)
        ensures
            r is Ok <==> self.spec_contains(*id),
            r matches Ok(i) ==> i < self.keys@.len() && self.keys@[i as int] == *id,
            r matches Err(e) ==> e == KelpError::InvalidBindGroupId,
    {
        match self.find(*id) {
            Some(i) => Ok(i),
            None => Err(KelpError::InvalidBindGroupId),
        }
    }
}

} // verus!
