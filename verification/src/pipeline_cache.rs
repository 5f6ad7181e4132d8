//! Pipeline cache: maps (shader variant, blend mode) pairs to the index of
//! the compiled GPU pipeline object that a backend holds in creation order.
//! Entries are created lazily on first use and never evicted, so index-based
//! lookup stays stable; the hot per-batch loop compares indices instead of
//! re-hashing keys.

use vstd::prelude::*;
use crate::key_cache::{distinct_keys, ensure_key, lemma_ensure_key_distinct};
use crate::types::{BlendMode, KelpError};

verus! {

/// Cache key of one compiled pipeline: the shader variant and the blend
/// mode. `shader == 0` stands for the default sprite shader; explicit shader
/// variants carry their nonzero GPU-side identifier.
#[derive(Debug, PartialEq, Eq, Structural, Hash, Clone, Copy)]
pub struct PipelineId {
    pub shader: u64,
    pub blend_mode: BlendMode,
}

/// The key a (shader variant, blend mode) pair maps to.
pub open spec fn pipeline_key(shader: Option<u64>, blend_mode: BlendMode) -> PipelineId {
    PipelineId {
        shader: match shader {
            None => 0,
            Some(s) => s,
        },
        blend_mode,
    }
}

/// The shader argument never collides with the default-shader key: GPU-side
/// shader identifiers are nonzero.
pub open spec fn shader_arg_ok(shader: Option<u64>) -> bool {
    shader matches Some(s) ==> s != 0
}

/// Insertion-ordered cache of pipeline keys. The index of a key is the
/// index of its compiled pipeline on the backend side.
pub struct PipelineCache {
    pub keys: Vec<PipelineId>,
}

impl PipelineCache {
    /// No pipeline key is cached twice.
    pub open spec fn wf(self) -> bool {
        distinct_keys(self.keys@)
    }

    /// The key has a cached pipeline.
    pub open spec fn spec_contains(self, k: PipelineId) -> bool {
        self.keys@.contains(k)
    }

    /// A fresh, empty cache.
    pub fn new() -> (r: Self)
        ensures
            r.wf(),
            r.keys@.len() == 0,
    {
        PipelineCache { keys: Vec::new() }
    }

    /// First index of the key, if cached.
    fn find(&self, key: PipelineId) -> (r: Option<usize>)
        ensures
            match r {
                Some(i) => i < self.keys@.len() && self.keys@[i as int] == key,
                None => !self.spec_contains(key),
            },
    {
        let n = self.keys.len();
        let mut i: usize = 0;
        while i < n
            invariant
                n == self.keys@.len(),
                i <= n,
                forall|j: int| 0 <= j < i ==> self.keys@[j] != key,
            decreases n - i,
        {
            let k = self.keys[i];
            if k.shader == key.shader && k.blend_mode == key.blend_mode {
                return Some(i);
            }
            i = i + 1;
        }
        None
    }

    /// Makes sure a pipeline for this (shader, blend mode) pair is cached,
    /// compiling nothing when it already is: ensuring twice with the same
    /// key creates exactly one entry, and a successfully ensured key can
    /// always be looked up afterwards.
    pub fn ensure_pipeline(&mut self, shader: Option<u64>, blend_mode: BlendMode) -> (r: Result<
        (),
        KelpError,
    >)
        requires
            old(self).wf(),
            shader_arg_ok(shader),
        ensures
            final(self).wf(),
            r is Ok,
            final(self).keys@ == ensure_key(old(self).keys@, pipeline_key(shader, blend_mode)),
            final(self).spec_contains(pipeline_key(shader, blend_mode)),
    {
        let key = to_pipeline_id(shader, blend_mode);
        match self.find(key) {
            Some(_) => Ok(()),
            None => {
                proof {
                    lemma_ensure_key_distinct(self.keys@, key);
                }
                self.keys.push(key);
                proof {
                    assert(self.keys@[old(self).keys@.len() as int] == key);
                }
                Ok(())
            },
        }
    }

    /// Index of the cached pipeline for this (shader, blend mode) pair.
    /// Succeeds exactly when the key was ensured before; an unknown key
    /// fails with `InvalidPipelineId`.
    pub fn get_pipeline_index(&self, shader: Option<u64>, blend_mode: BlendMode) -> (r: Result<
        usize,
        KelpError,
    >)
        ensures
            r is Ok <==> self.spec_contains(pipeline_key(shader, blend_mode)),
            r matches Ok(i) ==> i < self.keys@.len() && self.keys@[i as int] == pipeline_key(
                shader,
                blend_mode,
            ),
            r matches Err(e) ==> e == KelpError::InvalidPipelineId,
    {
        let key = to_pipeline_id(shader, blend_mode);
        match self.find(key) {
            Some(i) => Ok(i),
            None => Err(KelpError::InvalidPipelineId),
        }
    }

    /// The key cached at the given pipeline index. Succeeds exactly for
    /// indices of cached pipelines; anything else fails with
    /// `InvalidPipelineId`.
    pub fn get_pipeline(&self, index: usize) -> (r: Result<PipelineId, KelpError>)
        ensures
            r is Ok <==> index < self.keys@.len(),
            r matches Ok(k) ==> k == self.keys@[index as int],
            r matches Err(e) ==> e == KelpError::InvalidPipelineId,
    {
        if index < self.keys.len() {
            Ok(self.keys[index])
        } else {
            Err(KelpError::InvalidPipelineId)
        }
    }
}

/// The cache key of a (shader, blend mode) pair.
fn to_pipeline_id(shader: Option<u64>, blend_mode: BlendMode) -> (r: PipelineId)
    ensures
        r == pipeline_key(shader, blend_mode),
{
    let s: u64 = match shader {
        None => 0,
        Some(s) => s,
    };
    PipelineId { shader: s, blend_mode }
}

} // verus!
