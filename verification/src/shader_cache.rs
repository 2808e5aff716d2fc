//! Content-addressed caching of shader compilation and program linking.
//!
//! The cache owns no backend objects itself: it decides which compilations
//! and links are needed and emits them as [`ShaderOp`] values for the
//! unverified shell to execute, while handing out stable small-integer
//! handles.  Compilation is content-addressed: textually equal sources of
//! the same stage share one handle, and a compile operation is emitted at
//! most once per source.  Linking is likewise content-addressed by the pair
//! of already-deduplicated handles.

use vstd::prelude::*;

verus! {

/// The two shader stages.
#[derive(Copy, Clone, Debug, PartialEq, Eq)]
pub enum ShaderStage {
    /// A vertex shader
    Vertex,
    /// A fragment shader
    Fragment,
}

/// A backend operation requested by the cache.
///
/// The shell must perform these in order; a failed compilation or link is
/// fatal for the run, so nothing after a failed operation is ever needed.
#[derive(Debug, PartialEq)]
pub enum ShaderOp {
    /// Compile `source` as a shader of stage `stage`; the resulting backend
    /// object is known from now on by `handle`.
    CompileShader {
        /// The stage to compile for
        stage: ShaderStage,
        /// The cache's handle for the compiled shader
        handle: usize,
        /// The full source text
        source: String,
    },
    /// Link the compiled shaders `vertex` and `fragment`; the linked
    /// program is known from now on by `program`.
    LinkProgram {
        /// The cache's handle for the linked program
        program: usize,
        /// Handle of the vertex shader
        vertex: usize,
        /// Handle of the fragment shader
        fragment: usize,
    },
}

/// Whether some source in `sources` has text `src`.
pub open spec fn contains_source(sources: Seq<String>, src: Seq<char>) -> bool {
    exists|i: int| 0 <= i < sources.len() && sources[i]@ == src
}

/// The index of the source with text `src` (unique when sources are
/// pairwise distinct).
pub open spec fn index_of_source(sources: Seq<String>, src: Seq<char>) -> int {
    choose|i: int| 0 <= i < sources.len() && sources[i]@ == src
}

/// Whether the sources in a stage's cache are pairwise textually distinct.
pub open spec fn distinct_sources(sources: Seq<String>) -> bool {
    forall|i: int, j: int| 0 <= i < j < sources.len() ==> sources[i]@ != sources[j]@
}

/// Whether `op` compiles `src` for `stage` under handle `h`.
pub open spec fn is_compile_op(op: ShaderOp, stage: ShaderStage, h: int, src: Seq<char>) -> bool {
    &&& op is CompileShader
    &&& op_stage(op) == stage
    &&& op_handle(op) == h
    &&& op_source(op)@ == src
}

/// Whether `op` links shaders `vh` and `fh` into program `p`.
pub open spec fn is_link_op(op: ShaderOp, p: int, vh: int, fh: int) -> bool {
    match op {
        ShaderOp::LinkProgram { program, vertex, fragment } => program == p && vertex == vh
            && fragment == fh,
        _ => false,
    }
}

/// The stage of a compile operation.
pub open spec fn op_stage(op: ShaderOp) -> ShaderStage {
    match op {
        ShaderOp::CompileShader { stage, .. } => stage,
        _ => arbitrary(),
    }
}

/// The handle of a compile operation.
pub open spec fn op_handle(op: ShaderOp) -> int {
    match op {
        ShaderOp::CompileShader { handle, .. } => handle as int,
        _ => arbitrary(),
    }
}

/// The source of a compile operation.
pub open spec fn op_source(op: ShaderOp) -> String {
    match op {
        ShaderOp::CompileShader { source, .. } => source,
        _ => arbitrary(),
    }
}

/// Whether two operations create the same backend object: two compiles for
/// the same stage and handle, or two links for the same program handle.
pub open spec fn same_target(a: ShaderOp, b: ShaderOp) -> bool {
    match (a, b) {
        (
            ShaderOp::CompileShader { stage: s1, handle: h1, .. },
            ShaderOp::CompileShader { stage: s2, handle: h2, .. },
        ) => s1 == s2 && h1 == h2,
        (
            ShaderOp::LinkProgram { program: p1, .. },
            ShaderOp::LinkProgram { program: p2, .. },
        ) => p1 == p2,
        _ => false,
    }
}

/// How one stage's cache changes when `src` is requested: on a hit nothing
/// changes and `h` is the cached index; on a miss exactly `src` is appended
/// and `h` is its fresh index.
pub open spec fn stage_cache_post(
    old_s: Seq<String>,
    new_s: Seq<String>,
    src: Seq<char>,
    h: int,
) -> bool {
    if contains_source(old_s, src) {
        &&& new_s == old_s
        &&& 0 <= h < old_s.len()
        &&& old_s[h]@ == src
    } else {
        &&& h == old_s.len()
        &&& new_s.len() == old_s.len() + 1
        &&& new_s[h]@ == src
        &&& forall|i: int| 0 <= i < old_s.len() ==> new_s[i] == old_s[i]
    }
}

/// The operations a program request emits: a compile per stage whose source
/// is new, then a link if the pair of handles was never linked, in that
/// order, and nothing else.
pub open spec fn compile_program_emission(
    old_c: ShaderCache,
    emitted: Seq<ShaderOp>,
    v_src: Seq<char>,
    f_src: Seq<char>,
    vh: int,
    fh: int,
    p: int,
) -> bool {
    let nv: int = if contains_source(old_c.vertex_sources(), v_src) {
        0
    } else {
        1
    };
    let nf: int = if contains_source(old_c.fragment_sources(), f_src) {
        0
    } else {
        1
    };
    let nl: int = if old_c.has_program(v_src, f_src) {
        0
    } else {
        1
    };
    &&& emitted.len() == nv + nf + nl
    &&& nv == 1 ==> is_compile_op(emitted[0], ShaderStage::Vertex, vh, v_src)
    &&& nf == 1 ==> is_compile_op(emitted[nv], ShaderStage::Fragment, fh, f_src)
    &&& nl == 1 ==> is_link_op(emitted[nv + nf], p, vh, fh)
}

/// Compiles and links shader programs, deduplicated by source identity.
pub struct ShaderCache {
    /// Vertex sources; the vertex handle is the index.
    vertex_shaders: Vec<String>,
    /// Fragment sources; the fragment handle is the index.  Independent of
    /// the vertex cache: equal text across stages shares nothing.
    fragment_shaders: Vec<String>,
    /// Linked programs as (vertex handle, fragment handle) pairs; the
    /// program handle is the index.
    programs: Vec<(usize, usize)>,
    /// Every operation this cache has ever emitted, in order.
    history: Ghost<Seq<ShaderOp>>,
}

impl ShaderCache {
    /// The vertex sources, by handle.
    pub closed spec fn vertex_sources(self) -> Seq<String> {
        self.vertex_shaders@
    }

    /// The fragment sources, by handle.
    pub closed spec fn fragment_sources(self) -> Seq<String> {
        self.fragment_shaders@
    }

    /// The linked pairs, by program handle.
    pub closed spec fn linked(self) -> Seq<(usize, usize)> {
        self.programs@
    }

    /// Every operation this cache has ever emitted, in order.
    pub closed spec fn history(self) -> Seq<ShaderOp> {
        self.history@
    }

    /// Whether `op` is recorded by the current cache contents.
    pub open spec fn registered(self, op: ShaderOp) -> bool {
        match op {
            ShaderOp::CompileShader { stage, handle, source } => {
                let sources = if stage is Vertex {
                    self.vertex_sources()
                } else {
                    self.fragment_sources()
                };
                handle < sources.len() && sources[handle as int]@ == source@
            },
            ShaderOp::LinkProgram { program, vertex, fragment } => {
                program < self.linked().len() && self.linked()[program as int] == (
                    vertex,
                    fragment,
                )
            },
        }
    }

    /// The cache invariant.
    pub open spec fn wf(self) -> bool {
        &&& distinct_sources(self.vertex_sources())
        &&& distinct_sources(self.fragment_sources())
        &&& forall|p: int|
            0 <= p < self.linked().len() ==> (#[trigger] self.linked()[p]).0
                < self.vertex_sources().len() && self.linked()[p].1
                < self.fragment_sources().len()
        &&& forall|p: int, q: int|
            0 <= p < q < self.linked().len() ==> self.linked()[p] != self.linked()[q]
        &&& forall|k: int|
            0 <= k < self.history().len() ==> self.registered(#[trigger] self.history()[k])
        &&& forall|k1: int, k2: int|
            0 <= k1 < k2 < self.history().len() ==> !same_target(
                self.history()[k1],
                self.history()[k2],
            )
    }

    /// Whether a program for the pair of source texts is already linked.
    pub open spec fn has_program(self, v_src: Seq<char>, f_src: Seq<char>) -> bool {
        &&& contains_source(self.vertex_sources(), v_src)
        &&& contains_source(self.fragment_sources(), f_src)
        &&& exists|p: int|
            0 <= p < self.linked().len() && (#[trigger] self.linked()[p]) == (
                index_of_source(self.vertex_sources(), v_src) as usize,
                index_of_source(self.fragment_sources(), f_src) as usize,
            )
    }

    /// The program handle for the pair of source texts.
    pub open spec fn program_for(self, v_src: Seq<char>, f_src: Seq<char>) -> int {
        choose|p: int|
            0 <= p < self.linked().len() && (#[trigger] self.linked()[p]) == (
                index_of_source(self.vertex_sources(), v_src) as usize,
                index_of_source(self.fragment_sources(), f_src) as usize,
            )
    }

    /// Whether `other` extends `self`: every handle keeps its meaning.
    pub open spec fn extended_by(self, other: ShaderCache) -> bool {
        &&& self.vertex_sources().len() <= other.vertex_sources().len()
        &&& forall|i: int|
            0 <= i < self.vertex_sources().len() ==> other.vertex_sources()[i]
                == self.vertex_sources()[i]
        &&& self.fragment_sources().len() <= other.fragment_sources().len()
        &&& forall|i: int|
            0 <= i < self.fragment_sources().len() ==> other.fragment_sources()[i]
                == self.fragment_sources()[i]
        &&& self.linked().len() <= other.linked().len()
        &&& forall|i: int|
            0 <= i < self.linked().len() ==> other.linked()[i] == self.linked()[i]
    }

    /// An empty cache.
    pub fn new() -> (cache: ShaderCache)
        ensures
            cache.wf(),
            cache.vertex_sources().len() == 0,
            cache.fragment_sources().len() == 0,
            cache.linked().len() == 0,
            cache.history().len() == 0,
    {
        ShaderCache {
            vertex_shaders: Vec::new(),
            fragment_shaders: Vec::new(),
            programs: Vec::new(),
            history: Ghost(Seq::empty()),
        }
    }

    /// Look a source text up in one stage's cache.
    fn lookup_source(sources: &Vec<String>, source: &str) -> (r: Option<usize>)
        ensures
            match r {
                Some(i) => i < sources@.len() && sources@[i as int]@ == source@,
                None => !contains_source(sources@, source@),
            },
    {
        let owned: String = source.to_owned();
        let mut i: usize = 0;
        while i < sources.len()
            invariant
                0 <= i <= sources@.len(),
                owned@ == source@,
                forall|j: int| 0 <= j < i ==> sources@[j]@ != source@,
            decreases sources@.len() - i,
        {
            if sources[i] == owned {
                return Some(i);
            }
            i = i + 1;
        }
        None
    }

    /// Shared stage-cache step: return the handle for `source`, appending
    /// it and emitting a compile operation only when it is new.
    fn compile_shader(
        sources: &mut Vec<String>,
        stage: ShaderStage,
        source: &str,
        ops: &mut Vec<ShaderOp>,
    ) -> (h: usize)
        ensures
            stage_cache_post(old(sources)@, final(sources)@, source@, h as int),
            contains_source(old(sources)@, source@) ==> final(ops)@ == old(ops)@,
            !contains_source(old(sources)@, source@) ==> {
                &&& final(ops)@.len() == old(ops)@.len() + 1
                &&& final(ops)@.drop_last() == old(ops)@
                &&& is_compile_op(final(ops)@.last(), stage, h as int, source@)
            },
    {
        match Self::lookup_source(sources, source) {
            Some(h) => h,
            None => {
                let h = sources.len();
                sources.push(source.to_owned());
                ops.push(
                    ShaderOp::CompileShader { stage, handle: h, source: source.to_owned() },
                );
                proof {
                    assert(final(ops)@.drop_last() =~= old(ops)@);
                }
                h
            },
        }
    }

    /// Return the handle of the vertex shader with the given source,
    /// compiling it only if no textually equal source was compiled before.
    pub fn compile_vertex_shader(&mut self, source: &str, ops: &mut Vec<ShaderOp>) -> (h: usize)
        requires
            old(self).wf(),
        ensures
            final(self).wf(),
            old(self).extended_by(*final(self)),
            final(self).fragment_sources() == old(self).fragment_sources(),
            final(self).linked() == old(self).linked(),
            stage_cache_post(
                old(self).vertex_sources(),
                final(self).vertex_sources(),
                source@,
                h as int,
            ),
            contains_source(old(self).vertex_sources(), source@) ==> {
                &&& final(ops)@ == old(ops)@
                &&& final(self).history() == old(self).history()
            },
            !contains_source(old(self).vertex_sources(), source@) ==> {
                &&& final(ops)@.len() == old(ops)@.len() + 1
                &&& final(ops)@.drop_last() == old(ops)@
                &&& is_compile_op(final(ops)@.last(), ShaderStage::Vertex, h as int, source@)
                &&& final(self).history() == old(self).history().push(final(ops)@.last())
            },
    {
        let ghost old_ops = ops@;
        let n0 = ops.len();
        let h = Self::compile_shader(&mut self.vertex_shaders, ShaderStage::Vertex, source, ops);
        if ops.len() > n0 {
            let ghost op = ops@.last();
            proof {
                self.history@ = self.history@.push(op);
            }
        }
        proof {
            self.lemma_wf_after_vertex(*old(self), source@, h as int, old_ops, ops@);
        }
        h
    }

    /// Helper: the invariant survives a vertex-stage step.
    proof fn lemma_wf_after_vertex(
        &self,
        prev: ShaderCache,
        src: Seq<char>,
        h: int,
        old_ops: Seq<ShaderOp>,
        new_ops: Seq<ShaderOp>,
    )
        requires
            prev.wf(),
            self.fragment_sources() == prev.fragment_sources(),
            self.linked() == prev.linked(),
            stage_cache_post(prev.vertex_sources(), self.vertex_sources(), src, h),
            contains_source(prev.vertex_sources(), src) ==> self.history() == prev.history(),
            !contains_source(prev.vertex_sources(), src) ==> new_ops.len() == old_ops.len() + 1
                && is_compile_op(new_ops.last(), ShaderStage::Vertex, h, src) && self.history()
                == prev.history().push(new_ops.last()),
        ensures
            self.wf(),
    {
        if contains_source(prev.vertex_sources(), src) {
            assert(self.vertex_sources() == prev.vertex_sources());
            assert forall|k: int| 0 <= k < self.history().len() implies self.registered(
                #[trigger] self.history()[k],
            ) by {
                assert(prev.registered(prev.history()[k]));
            }
        } else {
            assert forall|k: int| 0 <= k < self.history().len() implies self.registered(
                #[trigger] self.history()[k],
            ) by {
                if k < prev.history().len() {
                    assert(prev.registered(prev.history()[k]));
                } else {
                    assert(self.history()[k] == new_ops.last());
                }
            }
            assert forall|k1: int, k2: int|
                0 <= k1 < k2 < self.history().len() implies !same_target(
                self.history()[k1],
                self.history()[k2],
            ) by {
                if k2 < prev.history().len() {
                } else {
                    assert(self.history()[k2] == new_ops.last());
                    assert(prev.registered(prev.history()[k1]));
                }
            }
        }
    }

    /// Return the handle of the fragment shader with the given source,
    /// compiling it only if no textually equal source was compiled before.
    pub fn compile_fragment_shader(&mut self, source: &str, ops: &mut Vec<ShaderOp>) -> (h: usize)
        requires
            old(self).wf(),
        ensures
            final(self).wf(),
            old(self).extended_by(*final(self)),
            final(self).vertex_sources() == old(self).vertex_sources(),
            final(self).linked() == old(self).linked(),
            stage_cache_post(
                old(self).fragment_sources(),
                final(self).fragment_sources(),
                source@,
                h as int,
            ),
            contains_source(old(self).fragment_sources(), source@) ==> {
                &&& final(ops)@ == old(ops)@
                &&& final(self).history() == old(self).history()
            },
            !contains_source(old(self).fragment_sources(), source@) ==> {
                &&& final(ops)@.len() == old(ops)@.len() + 1
                &&& final(ops)@.drop_last() == old(ops)@
                &&& is_compile_op(final(ops)@.last(), ShaderStage::Fragment, h as int, source@)
                &&& final(self).history() == old(self).history().push(final(ops)@.last())
            },
    {
        let ghost old_ops = ops@;
        let n0 = ops.len();
        let h = Self::compile_shader(
            &mut self.fragment_shaders,
            ShaderStage::Fragment,
            source,
            ops,
        );
        if ops.len() > n0 {
            let ghost op = ops@.last();
            proof {
                self.history@ = self.history@.push(op);
            }
        }
        proof {
            self.lemma_wf_after_fragment(*old(self), source@, h as int, old_ops, ops@);
        }
        h
    }

    /// Helper: the invariant survives a fragment-stage step.
    proof fn lemma_wf_after_fragment(
        &self,
        prev: ShaderCache,
        src: Seq<char>,
        h: int,
        old_ops: Seq<ShaderOp>,
        new_ops: Seq<ShaderOp>,
    )
        requires
            prev.wf(),
            self.vertex_sources() == prev.vertex_sources(),
            self.linked() == prev.linked(),
            stage_cache_post(prev.fragment_sources(), self.fragment_sources(), src, h),
            contains_source(prev.fragment_sources(), src) ==> self.history() == prev.history(),
            !contains_source(prev.fragment_sources(), src) ==> new_ops.len() == old_ops.len() + 1
                && is_compile_op(new_ops.last(), ShaderStage::Fragment, h, src) && self.history()
                == prev.history().push(new_ops.last()),
        ensures
            self.wf(),
    {
        if contains_source(prev.fragment_sources(), src) {
            assert forall|k: int| 0 <= k < self.history().len() implies self.registered(
                #[trigger] self.history()[k],
            ) by {
                assert(prev.registered(prev.history()[k]));
            }
        } else {
            assert forall|k: int| 0 <= k < self.history().len() implies self.registered(
                #[trigger] self.history()[k],
            ) by {
                if k < prev.history().len() {
                    assert(prev.registered(prev.history()[k]));
                } else {
                    assert(self.history()[k] == new_ops.last());
                }
            }
            assert forall|k1: int, k2: int|
                0 <= k1 < k2 < self.history().len() implies !same_target(
                self.history()[k1],
                self.history()[k2],
            ) by {
                if k2 < prev.history().len() {
                } else {
                    assert(self.history()[k2] == new_ops.last());
                    assert(prev.registered(prev.history()[k1]));
                }
            }
        }
    }

    /// The handle of the vertex shader whose source is `src`.
    pub open spec fn vertex_handle(self, src: Seq<char>) -> int {
        index_of_source(self.vertex_sources(), src)
    }

    /// The handle of the fragment shader whose source is `src`.
    pub open spec fn fragment_handle(self, src: Seq<char>) -> int {
        index_of_source(self.fragment_sources(), src)
    }

    /// Look a handle pair up in the program cache.
    fn lookup_pair(programs: &Vec<(usize, usize)>, vh: usize, fh: usize) -> (r: Option<usize>)
        ensures
            match r {
                Some(p) => p < programs@.len() && programs@[p as int] == (vh, fh),
                None => forall|q: int| 0 <= q < programs@.len() ==> programs@[q] != (vh, fh),
            },
    {
        let mut i: usize = 0;
        while i < programs.len()
            invariant
                0 <= i <= programs@.len(),
                forall|q: int| 0 <= q < i ==> programs@[q] != (vh, fh),
            decreases programs@.len() - i,
        {
            let entry = programs[i];
            if entry.0 == vh && entry.1 == fh {
                return Some(i);
            }
            i = i + 1;
        }
        None
    }

    /// Return the program handle for the pair of source texts, compiling
    /// each source and linking the pair only where no textually equal
    /// request was served before.
    pub fn compile_program(
        &mut self,
        vertex_shader_source: &str,
        fragment_shader_source: &str,
        ops: &mut Vec<ShaderOp>,
    ) -> (p: usize)
        requires
            old(self).wf(),
        ensures
            final(self).wf(),
            old(self).extended_by(*final(self)),
            stage_cache_post(
                old(self).vertex_sources(),
                final(self).vertex_sources(),
                vertex_shader_source@,
                final(self).vertex_handle(vertex_shader_source@),
            ),
            stage_cache_post(
                old(self).fragment_sources(),
                final(self).fragment_sources(),
                fragment_shader_source@,
                final(self).fragment_handle(fragment_shader_source@),
            ),
            final(self).has_program(vertex_shader_source@, fragment_shader_source@),
            p as int == final(self).program_for(vertex_shader_source@, fragment_shader_source@),
            p < final(self).linked().len(),
            final(self).linked()[p as int] == (
                final(self).vertex_handle(vertex_shader_source@) as usize,
                final(self).fragment_handle(fragment_shader_source@) as usize,
            ),
            final(self).linked().len() == old(self).linked().len() + (
            if old(self).has_program(vertex_shader_source@, fragment_shader_source@) {
                0int
            } else {
                1int
            }),
            final(ops)@.len() >= old(ops)@.len(),
            final(ops)@.subrange(0, old(ops)@.len() as int) == old(ops)@,
            compile_program_emission(
                *old(self),
                final(ops)@.skip(old(ops)@.len() as int),
                vertex_shader_source@,
                fragment_shader_source@,
                final(self).vertex_handle(vertex_shader_source@),
                final(self).fragment_handle(fragment_shader_source@),
                p as int,
            ),
            final(self).history() == old(self).history() + final(ops)@.skip(
                old(ops)@.len() as int,
            ),
    {
        let ghost prev = *self;
        let ghost n0 = ops@.len();
        let vertex_shader = self.compile_vertex_shader(vertex_shader_source, ops);
        let fragment_shader = self.compile_fragment_shader(fragment_shader_source, ops);
        let ghost mid = *self;
        proof {
            lemma_index_of_source(
                self.vertex_sources(),
                vertex_shader_source@,
                vertex_shader as int,
            );
            lemma_index_of_source(
                self.fragment_sources(),
                fragment_shader_source@,
                fragment_shader as int,
            );
        }
        let cached = Self::lookup_pair(&self.programs, vertex_shader, fragment_shader);
        match cached {
            Some(p) => {
                proof {
                    // a cached pair means both compiles were hits
                    assert(self.linked() == prev.linked());
                    assert(contains_source(prev.vertex_sources(), vertex_shader_source@));
                    assert(contains_source(prev.fragment_sources(), fragment_shader_source@));
                    self.lemma_pair_unique(
                        vertex_shader_source@,
                        fragment_shader_source@,
                        p as int,
                    );
                    assert(prev.has_program(vertex_shader_source@, fragment_shader_source@)) by {
                        lemma_index_of_source(
                            prev.vertex_sources(),
                            vertex_shader_source@,
                            vertex_shader as int,
                        );
                        lemma_index_of_source(
                            prev.fragment_sources(),
                            fragment_shader_source@,
                            fragment_shader as int,
                        );
                    }
                    assert(final(ops)@.skip(n0 as int) =~= Seq::<ShaderOp>::empty());
                    assert(final(ops)@.subrange(0, n0 as int) =~= old(ops)@);
                    assert(final(self).history() =~= old(self).history() + final(ops)@.skip(
                        n0 as int,
                    ));
                }
                p
            },
            None => {
                let p = self.programs.len();
                self.programs.push((vertex_shader, fragment_shader));
                ops.push(
                    ShaderOp::LinkProgram {
                        program: p,
                        vertex: vertex_shader,
                        fragment: fragment_shader,
                    },
                );
                proof {
                    self.history@ = self.history@.push(ops@.last());
                }
                proof {
                    let ghost link_op = ops@.last();
                    assert(self.registered(link_op));
                    // older history entries survive: sources and programs only grew
                    assert forall|k: int| 0 <= k < self.history().len() implies self.registered(
                        #[trigger] self.history()[k],
                    ) by {
                        if k < self.history().len() - 1 {
                            assert(mid.registered(mid.history()[k]));
                        } else {
                            assert(self.history()[k] == link_op);
                        }
                    }
                    assert forall|k1: int, k2: int|
                        0 <= k1 < k2 < self.history().len() implies !same_target(
                        self.history()[k1],
                        self.history()[k2],
                    ) by {
                        if k2 < self.history().len() - 1 {
                        } else {
                            assert(self.history()[k2] == link_op);
                            assert(mid.registered(mid.history()[k1]));
                        }
                    }
                    assert(self.wf());
                    self.lemma_pair_unique(
                        vertex_shader_source@,
                        fragment_shader_source@,
                        p as int,
                    );
                    // the old cache had no program for the pair
                    if prev.has_program(vertex_shader_source@, fragment_shader_source@) {
                        let q = choose|q: int|
                            0 <= q < prev.linked().len() && (#[trigger] prev.linked()[q]) == (
                                index_of_source(
                                    prev.vertex_sources(),
                                    vertex_shader_source@,
                                ) as usize,
                                index_of_source(
                                    prev.fragment_sources(),
                                    fragment_shader_source@,
                                ) as usize,
                            );
                        lemma_index_of_source(
                            prev.vertex_sources(),
                            vertex_shader_source@,
                            vertex_shader as int,
                        );
                        lemma_index_of_source(
                            prev.fragment_sources(),
                            fragment_shader_source@,
                            fragment_shader as int,
                        );
                        assert(mid.linked()[q] == (vertex_shader, fragment_shader));
                        assert(false);
                    }
                    assert(final(ops)@.subrange(0, n0 as int) =~= old(ops)@);
                    assert(final(self).history() =~= old(self).history() + final(ops)@.skip(
                        n0 as int,
                    )) by {
                        assert(final(ops)@.skip(n0 as int) =~= final(ops)@.subrange(
                            n0 as int,
                            final(ops)@.len() as int,
                        ));
                    }
                    let emitted = final(ops)@.skip(n0 as int);
                    let nv: int = if contains_source(
                        prev.vertex_sources(),
                        vertex_shader_source@,
                    ) {
                        0
                    } else {
                        1
                    };
                    let nf: int = if contains_source(
                        prev.fragment_sources(),
                        fragment_shader_source@,
                    ) {
                        0
                    } else {
                        1
                    };
                    assert(emitted.len() == nv + nf + 1);
                    assert(emitted[nv + nf] == link_op);
                }
                p
            },
        }
    }

    /// Helper: under the invariant, a linked pair determines its program
    /// handle, so `program_for` names the handle of any matching entry.
    proof fn lemma_pair_unique(&self, v_src: Seq<char>, f_src: Seq<char>, p: int)
        requires
            self.wf(),
            contains_source(self.vertex_sources(), v_src),
            contains_source(self.fragment_sources(), f_src),
            0 <= p < self.linked().len(),
            self.linked()[p] == (
                index_of_source(self.vertex_sources(), v_src) as usize,
                index_of_source(self.fragment_sources(), f_src) as usize,
            ),
        ensures
            self.has_program(v_src, f_src),
            self.program_for(v_src, f_src) == p,
    {
        assert(self.has_program(v_src, f_src));
        let q = self.program_for(v_src, f_src);
        assert(0 <= q < self.linked().len() && self.linked()[q] == (
            index_of_source(self.vertex_sources(), v_src) as usize,
            index_of_source(self.fragment_sources(), f_src) as usize,
        ));
        if p < q {
            assert(self.linked()[p] != self.linked()[q]);
        } else if q < p {
            assert(self.linked()[q] != self.linked()[p]);
        }
    }
}

/// Law: compilation is deterministic per stage.  Under the cache invariant
/// a source text determines its handle: any two handles whose recorded
/// sources are textually equal are the same handle.  Together with the
/// contracts of the compile methods this says that requests with equal
/// source text return the identical handle.
pub proof fn lemma_index_of_source(sources: Seq<String>, src: Seq<char>, h: int)
    requires
        distinct_sources(sources),
        0 <= h < sources.len(),
        sources[h]@ == src,
    ensures
        contains_source(sources, src),
        index_of_source(sources, src) == h,
{
    assert(contains_source(sources, src));
    let i = index_of_source(sources, src);
    if i < h {
        assert(sources[i]@ != sources[h]@);
    } else if h < i {
        assert(sources[h]@ != sources[i]@);
    }
}

/// Law: the backend compiler is invoked at most once per source text and
/// stage across the cache's lifetime: the history never holds two compile
/// operations for the same stage whose sources are textually equal.
pub proof fn lemma_compile_at_most_once(cache: &ShaderCache, k1: int, k2: int)
    requires
        cache.wf(),
        0 <= k1 < cache.history().len(),
        0 <= k2 < cache.history().len(),
        k1 != k2,
        cache.history()[k1] is CompileShader,
        cache.history()[k2] is CompileShader,
        op_stage(cache.history()[k1]) == op_stage(cache.history()[k2]),
    ensures
        op_source(cache.history()[k1])@ != op_source(cache.history()[k2])@,
{
    let a = cache.history()[k1];
    let b = cache.history()[k2];
    assert(cache.registered(a));
    assert(cache.registered(b));
    if op_source(a)@ == op_source(b)@ {
        let sources = if op_stage(a) is Vertex {
            cache.vertex_sources()
        } else {
            cache.fragment_sources()
        };
        lemma_index_of_source(sources, op_source(a)@, op_handle(a));
        lemma_index_of_source(sources, op_source(b)@, op_handle(b));
        assert(same_target(a, b));
        if k1 < k2 {
            assert(!same_target(cache.history()[k1], cache.history()[k2]));
        } else {
            assert(!same_target(cache.history()[k2], cache.history()[k1]));
            assert(same_target(b, a));
        }
    }
}

/// Law: the backend linker is invoked at most once per pair of shader
/// handles across the cache's lifetime: the history never holds two link
/// operations for the same vertex and fragment handles.
pub proof fn lemma_link_at_most_once(cache: &ShaderCache, k1: int, k2: int)
    requires
        cache.wf(),
        0 <= k1 < cache.history().len(),
        0 <= k2 < cache.history().len(),
        k1 != k2,
        cache.history()[k1] is LinkProgram,
        cache.history()[k2] is LinkProgram,
    ensures
        !(link_vertex(cache.history()[k1]) == link_vertex(cache.history()[k2]) && link_fragment(
            cache.history()[k1],
        ) == link_fragment(cache.history()[k2])),
{
    let a = cache.history()[k1];
    let b = cache.history()[k2];
    assert(cache.registered(a));
    assert(cache.registered(b));
    if link_vertex(a) == link_vertex(b) && link_fragment(a) == link_fragment(b) {
        let pa = link_program(a);
        let pb = link_program(b);
        assert(cache.linked()[pa] == cache.linked()[pb]);
        if pa < pb {
            assert(cache.linked()[pa] != cache.linked()[pb]);
        } else if pb < pa {
            assert(cache.linked()[pb] != cache.linked()[pa]);
        }
        assert(same_target(a, b));
        if k1 < k2 {
            assert(!same_target(cache.history()[k1], cache.history()[k2]));
        } else {
            assert(!same_target(cache.history()[k2], cache.history()[k1]));
            assert(same_target(b, a));
        }
    }
}

/// Extension is transitive.
pub proof fn lemma_extended_by_trans(a: ShaderCache, b: ShaderCache, c: ShaderCache)
    requires
        a.extended_by(b),
        b.extended_by(c),
    ensures
        a.extended_by(c),
{
}

/// Law: handles and program handles keep their meaning as the cache grows:
/// a program once obtained for a pair of source texts is the program every
/// later request for the same texts resolves to.
pub proof fn lemma_program_stable(c1: ShaderCache, c2: ShaderCache, v_src: Seq<char>, f_src: Seq<char>)
    requires
        c1.wf(),
        c2.wf(),
        c1.extended_by(c2),
        c1.has_program(v_src, f_src),
    ensures
        c2.has_program(v_src, f_src),
        c2.vertex_handle(v_src) == c1.vertex_handle(v_src),
        c2.fragment_handle(f_src) == c1.fragment_handle(f_src),
        c2.program_for(v_src, f_src) == c1.program_for(v_src, f_src),
{
    let vh = c1.vertex_handle(v_src);
    let fh = c1.fragment_handle(f_src);
    assert(0 <= vh < c1.vertex_sources().len() && c1.vertex_sources()[vh]@ == v_src);
    assert(0 <= fh < c1.fragment_sources().len() && c1.fragment_sources()[fh]@ == f_src);
    assert(c2.vertex_sources()[vh] == c1.vertex_sources()[vh]);
    assert(c2.fragment_sources()[fh] == c1.fragment_sources()[fh]);
    lemma_index_of_source(c2.vertex_sources(), v_src, vh);
    lemma_index_of_source(c2.fragment_sources(), f_src, fh);
    let p = c1.program_for(v_src, f_src);
    assert(0 <= p < c1.linked().len() && c1.linked()[p] == (vh as usize, fh as usize));
    assert(c2.linked()[p] == c1.linked()[p]);
    c2.lemma_pair_unique(v_src, f_src, p);
}

/// The program handle of a link operation.
pub open spec fn link_program(op: ShaderOp) -> int {
    match op {
        ShaderOp::LinkProgram { program, .. } => program as int,
        _ => arbitrary(),
    }
}

/// The vertex handle of a link operation.
pub open spec fn link_vertex(op: ShaderOp) -> int {
    match op {
        ShaderOp::LinkProgram { vertex, .. } => vertex as int,
        _ => arbitrary(),
    }
}

/// The fragment handle of a link operation.
pub open spec fn link_fragment(op: ShaderOp) -> int {
    match op {
        ShaderOp::LinkProgram { fragment, .. } => fragment as int,
        _ => arbitrary(),
    }
}

} // verus!
