//! The render pipeline: from a logical pixel buffer and a shader set to the
//! exact sequence of draw operations that realizes one frame.
//!
//! The pipeline owns two ping-pong render targets sized to the logical
//! resolution.  Presenting a frame uploads the pixel buffer, draws the
//! primary program into one target, draws each filter program reading the
//! previous pass's output into the other target (roles swap every pass),
//! and finally blits the last output to the window framebuffer through a
//! fixed passthrough program, with the viewport set to the window size —
//! the only place window pixel dimensions matter.  All of this is emitted
//! as [`RenderOp`] values for the unverified shell to execute.

use vstd::prelude::*;

use crate::shader_cache::{lemma_extended_by_trans, lemma_program_stable, ShaderCache, ShaderOp};

verus! {

/// The default vertex shader used for full-screen blits; filter programs
/// and the passthrough program pair their fragment shaders with it.
pub const DEFAULT_VERTEX_SHADER: &'static str = "#version 150\n\nin vec4 position;\n\nout vec2 uv;\n\nvoid main() {\n  gl_Position = position;\n  uv = position.xy * vec2(0.5, -0.5) + vec2(0.5, 0.5);\n}\n";

/// The identity fragment shader; paired with the default vertex shader it
/// forms the passthrough program used for the final blit to the screen.
pub const DEFAULT_FRAGMENT_SHADER: &'static str = "#version 150\n\nin vec2 uv;\n\nout vec4 color;\n\nuniform sampler2D source;\n\nvoid main() {\n  color = texture(source, uv);\n}\n";

/// The input a draw pass reads from.
#[derive(Copy, Clone, Debug, PartialEq, Eq)]
pub enum PassInput {
    /// The texture holding this frame's uploaded pixel buffer
    PixelTexture,
    /// One of the two ping-pong targets
    Target {
        /// Which target: 0 or 1
        index: usize,
    },
}

/// A rendering operation the shell must perform, in order.
#[derive(Copy, Clone, Debug, PartialEq, Eq)]
pub enum RenderOp {
    /// Respecify the backing storage of both ping-pong targets at the
    /// logical resolution
    ResizeTargets {
        /// Logical width in pixels
        width: usize,
        /// Logical height in pixels
        height: usize,
    },
    /// Upload the logical pixel buffer into the pixel texture
    UploadPixels {
        /// Logical width in pixels
        width: usize,
        /// Logical height in pixels
        height: usize,
    },
    /// Draw a full-screen quad with `program`, sampling `input`, into
    /// ping-pong target `output`, with the viewport at the logical size
    OffscreenPass {
        /// Program handle to draw with
        program: usize,
        /// What the quad samples
        input: PassInput,
        /// Which target receives the pass: 0 or 1
        output: usize,
        /// Logical width in pixels
        width: usize,
        /// Logical height in pixels
        height: usize,
    },
    /// Draw the final full-screen quad with the passthrough program,
    /// sampling ping-pong target `input`, onto the window framebuffer,
    /// with the viewport at the window size
    ScreenBlit {
        /// The passthrough program handle
        program: usize,
        /// The target holding the last pass's output: 0 or 1
        input_target: usize,
        /// Window width in physical pixels
        window_width: u32,
        /// Window height in physical pixels
        window_height: u32,
    },
}

/// The i-th off-screen pass: pass 0 draws the primary program reading the
/// uploaded pixels into target 1; pass i >= 1 draws filter i-1 reading the
/// previous pass's output target, the two targets swapping roles each pass.
pub open spec fn pass_at(
    primary: int,
    filters: Seq<usize>,
    width: usize,
    height: usize,
    i: int,
) -> RenderOp {
    RenderOp::OffscreenPass {
        program: if i == 0 {
            primary as usize
        } else {
            filters[i - 1]
        },
        input: if i == 0 {
            PassInput::PixelTexture
        } else {
            PassInput::Target { index: (i % 2) as usize }
        },
        output: ((i + 1) % 2) as usize,
        width,
        height,
    }
}

/// Everything one `present` call emits: a target reallocation when the
/// logical size changed, the pixel upload, the off-screen passes, and the
/// final blit of the last output to the window.
pub open spec fn present_emission(
    primary: int,
    filters: Seq<usize>,
    passthrough: int,
    resized: bool,
    width: usize,
    height: usize,
    window_width: u32,
    window_height: u32,
) -> Seq<RenderOp> {
    let prefix: Seq<RenderOp> = if resized {
        seq![RenderOp::ResizeTargets { width, height }]
    } else {
        Seq::empty()
    };
    prefix + seq![RenderOp::UploadPixels { width, height }] + Seq::new(
        (filters.len() + 1) as nat,
        |i: int| pass_at(primary, filters, width, height, i),
    ) + seq![
        RenderOp::ScreenBlit {
            program: passthrough as usize,
            input_target: (((filters.len() + 1) as int) % 2) as usize,
            window_width,
            window_height,
        },
    ]
}

/// The number of off-screen draw passes among the operations.
pub open spec fn count_offscreen(ops: Seq<RenderOp>) -> int
    decreases ops.len(),
{
    if ops.len() == 0 {
        0
    } else {
        count_offscreen(ops.drop_last()) + if ops.last() is OffscreenPass {
            1int
        } else {
            0int
        }
    }
}

/// The number of screen blits among the operations.
pub open spec fn count_blits(ops: Seq<RenderOp>) -> int
    decreases ops.len(),
{
    if ops.len() == 0 {
        0
    } else {
        count_blits(ops.drop_last()) + if ops.last() is ScreenBlit {
            1int
        } else {
            0int
        }
    }
}

/// The ping-pong target an operation samples, if it samples one.
pub open spec fn reads_target(op: RenderOp) -> Option<usize> {
    match op {
        RenderOp::OffscreenPass { input: PassInput::Target { index }, .. } => Some(index),
        RenderOp::ScreenBlit { input_target, .. } => Some(input_target),
        _ => None,
    }
}

/// The ping-pong target an operation writes, if it writes one.
pub open spec fn writes_target(op: RenderOp) -> Option<usize> {
    match op {
        RenderOp::OffscreenPass { output, .. } => Some(output),
        _ => None,
    }
}

/// Counts distribute over concatenation.
proof fn lemma_counts_concat(a: Seq<RenderOp>, b: Seq<RenderOp>)
    ensures
        count_offscreen(a + b) == count_offscreen(a) + count_offscreen(b),
        count_blits(a + b) == count_blits(a) + count_blits(b),
    decreases b.len(),
{
    if b.len() == 0 {
        assert(a + b =~= a);
    } else {
        lemma_counts_concat(a, b.drop_last());
        assert((a + b).drop_last() =~= a + b.drop_last());
        assert((a + b).last() == b.last());
    }
}

/// A sequence of off-screen passes counts as passes alone.
proof fn lemma_counts_all_passes(s: Seq<RenderOp>)
    requires
        forall|k: int| 0 <= k < s.len() ==> (#[trigger] s[k]) is OffscreenPass,
    ensures
        count_offscreen(s) == s.len(),
        count_blits(s) == 0,
    decreases s.len(),
{
    if s.len() > 0 {
        lemma_counts_all_passes(s.drop_last());
    }
}

/// Law: for every number N of configured filters, presenting a frame
/// performs exactly N + 1 off-screen draw passes and exactly one
/// passthrough blit, and the blit is the final operation.
pub proof fn lemma_present_pass_count(
    primary: int,
    filters: Seq<usize>,
    passthrough: int,
    resized: bool,
    width: usize,
    height: usize,
    window_width: u32,
    window_height: u32,
)
    ensures
        count_offscreen(
            present_emission(
                primary,
                filters,
                passthrough,
                resized,
                width,
                height,
                window_width,
                window_height,
            ),
        ) == filters.len() + 1,
        count_blits(
            present_emission(
                primary,
                filters,
                passthrough,
                resized,
                width,
                height,
                window_width,
                window_height,
            ),
        ) == 1,
        present_emission(
            primary,
            filters,
            passthrough,
            resized,
            width,
            height,
            window_width,
            window_height,
        ).last() is ScreenBlit,
{
    let prefix: Seq<RenderOp> = if resized {
        seq![RenderOp::ResizeTargets { width, height }]
    } else {
        Seq::empty()
    };
    let upload = seq![RenderOp::UploadPixels { width, height }];
    let passes = Seq::new(
        (filters.len() + 1) as nat,
        |i: int| pass_at(primary, filters, width, height, i),
    );
    let blit = seq![
        RenderOp::ScreenBlit {
            program: passthrough as usize,
            input_target: (((filters.len() + 1) as int) % 2) as usize,
            window_width,
            window_height,
        },
    ];
    let e = present_emission(
        primary,
        filters,
        passthrough,
        resized,
        width,
        height,
        window_width,
        window_height,
    );
    assert(e == prefix + upload + passes + blit);
    assert(count_offscreen(Seq::<RenderOp>::empty()) == 0);
    assert(count_blits(Seq::<RenderOp>::empty()) == 0);
    lemma_counts_concat(prefix + upload + passes, blit);
    lemma_counts_concat(prefix + upload, passes);
    lemma_counts_concat(prefix, upload);
    lemma_counts_all_passes(passes);
    assert(count_offscreen(prefix) == 0 && count_blits(prefix) == 0) by {
        if resized {
            assert(prefix.drop_last() =~= Seq::<RenderOp>::empty());
        }
    }
    assert(count_offscreen(upload) == 0 && count_blits(upload) == 0) by {
        assert(upload.drop_last() =~= Seq::<RenderOp>::empty());
    }
    assert(count_offscreen(blit) == 0 && count_blits(blit) == 1) by {
        assert(blit.drop_last() =~= Seq::<RenderOp>::empty());
    }
    assert(e.last() == blit[0]);
}

/// Law: a window resize changes the final blit's viewport alone.  Two
/// emissions for the same pipeline state and logical size but different
/// window sizes have the same length, agree on every operation before the
/// last, and their final blits read the same target with the same program,
/// differing at most in the viewport size.
pub proof fn lemma_window_affects_blit_only(
    primary: int,
    filters: Seq<usize>,
    passthrough: int,
    resized: bool,
    width: usize,
    height: usize,
    window_a: (u32, u32),
    window_b: (u32, u32),
)
    ensures
        ({
            let ea = present_emission(
                primary,
                filters,
                passthrough,
                resized,
                width,
                height,
                window_a.0,
                window_a.1,
            );
            let eb = present_emission(
                primary,
                filters,
                passthrough,
                resized,
                width,
                height,
                window_b.0,
                window_b.1,
            );
            &&& ea.len() == eb.len()
            &&& ea.drop_last() == eb.drop_last()
            &&& ea.last() is ScreenBlit
            &&& eb.last() is ScreenBlit
            &&& reads_target(ea.last()) == reads_target(eb.last())
        }),
{
    let ea = present_emission(
        primary,
        filters,
        passthrough,
        resized,
        width,
        height,
        window_a.0,
        window_a.1,
    );
    let eb = present_emission(
        primary,
        filters,
        passthrough,
        resized,
        width,
        height,
        window_b.0,
        window_b.1,
    );
    assert(ea.drop_last() =~= eb.drop_last());
}

/// Law: no operation reads stale target contents: every ping-pong target
/// that a pass or the final blit samples was written by an earlier pass of
/// the same emission.  In particular, content rendered before a change of
/// the logical size is never read back.
pub proof fn lemma_no_stale_reads(
    primary: int,
    filters: Seq<usize>,
    passthrough: int,
    resized: bool,
    width: usize,
    height: usize,
    window_width: u32,
    window_height: u32,
)
    ensures
        ({
            let e = present_emission(
                primary,
                filters,
                passthrough,
                resized,
                width,
                height,
                window_width,
                window_height,
            );
            forall|j: int|
                0 <= j < e.len() && reads_target(#[trigger] e[j]) is Some ==> exists|j2: int|
                    0 <= j2 < j && writes_target(#[trigger] e[j2]) == Some(
                        reads_target(e[j])->0,
                    )
        }),
{
    let e = present_emission(
        primary,
        filters,
        passthrough,
        resized,
        width,
        height,
        window_width,
        window_height,
    );
    let b: int = if resized {
        2
    } else {
        1
    };
    let n = filters.len() as int;
    assert forall|j: int| 0 <= j < e.len() && reads_target(#[trigger] e[j]) is Some implies exists|
        j2: int,
    |
        0 <= j2 < j && writes_target(#[trigger] e[j2]) == Some(reads_target(e[j])->0) by {
        if j < b {
            assert(reads_target(e[j]) is None);
        } else if j < b + n + 1 {
            let i = j - b;
            assert(e[j] == pass_at(primary, filters, width, height, i));
            if i == 0 {
                assert(reads_target(e[j]) is None);
            } else {
                assert(e[j - 1] == pass_at(primary, filters, width, height, i - 1));
                assert(writes_target(e[j - 1]) == Some((((i - 1) + 1) % 2) as usize));
                assert(reads_target(e[j]) == Some((i % 2) as usize));
                assert(0 <= j - 1 < j && writes_target(e[j - 1]) == Some(
                    reads_target(e[j])->0,
                ));
            }
        } else {
            assert(j == b + n + 1);
            assert(e[j - 1] == pass_at(primary, filters, width, height, n));
            assert(writes_target(e[j - 1]) == Some(((n + 1) % 2) as usize));
            assert(reads_target(e[j]) == Some((((n + 1) as int) % 2) as usize));
            assert(0 <= j - 1 < j && writes_target(e[j - 1]) == Some(reads_target(e[j])->0));
        }
    }
}

/// Turns a logical pixel buffer plus a shader set into a displayed frame
/// through a configurable number of full-screen post-processing passes.
pub struct Display {
    /// The shader and program cache; owns every compiled handle.
    shader_cache: ShaderCache,
    /// The fixed passthrough program, linked once at construction.
    passthrough_program: usize,
    /// The current primary program; set by `set_shaders`.
    shader_program: Option<usize>,
    /// The current filter programs, in application order.
    filter_shader_programs: Vec<usize>,
    /// The logical size the ping-pong targets are allocated at, once any
    /// frame has been presented.
    target_dimensions: Option<(usize, usize)>,
}

impl Display {
    /// The shader cache.
    pub closed spec fn cache(self) -> ShaderCache {
        self.shader_cache
    }

    /// The passthrough program handle.
    pub closed spec fn passthrough(self) -> int {
        self.passthrough_program as int
    }

    /// The current primary program handle, if `set_shaders` has run.
    pub closed spec fn shader_program(self) -> Option<usize> {
        self.shader_program
    }

    /// The current filter program handles, in application order.
    pub closed spec fn filters(self) -> Seq<usize> {
        self.filter_shader_programs@
    }

    /// The logical size the ping-pong targets are allocated at.
    pub closed spec fn target_dimensions(self) -> Option<(usize, usize)> {
        self.target_dimensions
    }

    /// The pipeline invariant: the cache is well formed and every program
    /// handle the pipeline holds is linked in it.
    pub open spec fn wf(self) -> bool {
        &&& self.cache().wf()
        &&& self.passthrough() < self.cache().linked().len()
        &&& match self.shader_program() {
            Some(p) => p < self.cache().linked().len(),
            None => true,
        }
        &&& forall|i: int|
            0 <= i < self.filters().len() ==> (#[trigger] self.filters()[i])
                < self.cache().linked().len()
    }

    /// Construct the pipeline: links the fixed passthrough program (default
    /// vertex + identity fragment) once; no primary program is set yet and
    /// no target storage is allocated yet.
    pub fn new(ops: &mut Vec<ShaderOp>) -> (display: Display)
        ensures
            display.wf(),
            display.shader_program() is None,
            display.filters().len() == 0,
            display.target_dimensions() is None,
            display.cache().has_program(DEFAULT_VERTEX_SHADER@, DEFAULT_FRAGMENT_SHADER@),
            display.passthrough() == display.cache().program_for(
                DEFAULT_VERTEX_SHADER@,
                DEFAULT_FRAGMENT_SHADER@,
            ),
            final(ops)@.subrange(0, old(ops)@.len() as int) == old(ops)@,
    {
        let mut shader_cache = ShaderCache::new();
        let passthrough_program = shader_cache.compile_program(
            DEFAULT_VERTEX_SHADER,
            DEFAULT_FRAGMENT_SHADER,
            ops,
        );
        Display {
            shader_cache,
            passthrough_program,
            shader_program: None,
            filter_shader_programs: Vec::new(),
            target_dimensions: None,
        }
    }

    /// Install the shader set for subsequent frames: the primary program is
    /// the pair (vertex source, fragment source); each filter fragment
    /// source is paired with the default vertex shader, in order.  Every
    /// source is compiled and every pair linked only if no textually equal
    /// request was served before.
    #[verifier::loop_isolation(false)]
    pub fn set_shaders(
        &mut self,
        vertex_shader_source: &str,
        fragment_shader_source: &str,
        filter_shader_sources: &Vec<String>,
        ops: &mut Vec<ShaderOp>,
    )
        requires
            old(self).wf(),
        ensures
            final(self).wf(),
            old(self).cache().extended_by(final(self).cache()),
            final(self).passthrough() == old(self).passthrough(),
            final(self).target_dimensions() == old(self).target_dimensions(),
            final(self).cache().has_program(vertex_shader_source@, fragment_shader_source@),
            final(self).shader_program() == Some(
                final(self).cache().program_for(
                    vertex_shader_source@,
                    fragment_shader_source@,
                ) as usize,
            ),
            final(self).filters().len() == filter_shader_sources@.len(),
            forall|i: int|
                0 <= i < filter_shader_sources@.len() ==> {
                    &&& final(self).cache().has_program(
                        DEFAULT_VERTEX_SHADER@,
                        filter_shader_sources@[i]@,
                    )
                    &&& (#[trigger] final(self).filters()[i]) as int == final(self).cache().program_for(DEFAULT_VERTEX_SHADER@, filter_shader_sources@[i]@)
                },
            final(ops)@.subrange(0, old(ops)@.len() as int) == old(ops)@,
            final(self).cache().linked().len() <= old(self).cache().linked().len() + 1
                + filter_shader_sources@.len(),
            // the cache grows by nothing but this call's sources
            forall|i: int|
                old(self).cache().vertex_sources().len() <= i < final(self).cache().vertex_sources().len() ==> {
                    ||| (#[trigger] final(self).cache().vertex_sources()[i])@
                        == vertex_shader_source@
                    ||| final(self).cache().vertex_sources()[i]@ == DEFAULT_VERTEX_SHADER@
                },
            forall|i: int|
                old(self).cache().fragment_sources().len() <= i < final(self).cache().fragment_sources().len() ==> {
                    ||| (#[trigger] final(self).cache().fragment_sources()[i])@
                        == fragment_shader_source@
                    ||| exists|j: int|
                        0 <= j < filter_shader_sources@.len() && final(self).cache().fragment_sources()[i]@ == filter_shader_sources@[j]@
                },
    {
        let ghost c0 = self.shader_cache;
        let shader_program = self.shader_cache.compile_program(
            vertex_shader_source,
            fragment_shader_source,
            ops,
        );
        let ghost c1 = self.shader_cache;
        let mut filter_shader_programs: Vec<usize> = Vec::new();
        let mut i: usize = 0;
        while i < filter_shader_sources.len()
            invariant
                0 <= i <= filter_shader_sources@.len(),
                self.shader_cache.wf(),
                c0.extended_by(self.shader_cache),
                c1.extended_by(self.shader_cache),
                c1.has_program(vertex_shader_source@, fragment_shader_source@),
                c1.linked().len() <= c0.linked().len() + 1,
                self.shader_cache.linked().len() <= c1.linked().len() + i,
                self.shader_cache.has_program(vertex_shader_source@, fragment_shader_source@),
                self.shader_cache.program_for(vertex_shader_source@, fragment_shader_source@)
                    == c1.program_for(vertex_shader_source@, fragment_shader_source@),
                shader_program as int == c1.program_for(
                    vertex_shader_source@,
                    fragment_shader_source@,
                ),
                filter_shader_programs@.len() == i,
                forall|j: int|
                    0 <= j < i ==> self.shader_cache.has_program(
                        DEFAULT_VERTEX_SHADER@,
                        (#[trigger] filter_shader_sources@[j])@,
                    ),
                forall|j: int|
                    0 <= j < i ==> (#[trigger] filter_shader_programs@[j]) as int
                        == self.shader_cache.program_for(
                        DEFAULT_VERTEX_SHADER@,
                        filter_shader_sources@[j]@,
                    ),
                forall|j: int|
                    0 <= j < i ==> (#[trigger] filter_shader_programs@[j])
                        < self.shader_cache.linked().len(),
                forall|k: int|
                    c0.vertex_sources().len() <= k < self.shader_cache.vertex_sources().len()
                        ==> {
                        ||| (#[trigger] self.shader_cache.vertex_sources()[k])@
                            == vertex_shader_source@
                        ||| self.shader_cache.vertex_sources()[k]@ == DEFAULT_VERTEX_SHADER@
                    },
                forall|k: int|
                    c0.fragment_sources().len() <= k
                        < self.shader_cache.fragment_sources().len() ==> {
                        ||| (#[trigger] self.shader_cache.fragment_sources()[k])@
                            == fragment_shader_source@
                        ||| exists|j: int|
                            0 <= j < filter_shader_sources@.len()
                                && self.shader_cache.fragment_sources()[k]@
                                == filter_shader_sources@[j]@
                    },
                old(ops)@.len() <= ops@.len(),
                ops@.subrange(0, old(ops)@.len() as int) == old(ops)@,
                self.passthrough_program == old(self).passthrough_program,
                self.target_dimensions == old(self).target_dimensions,
                self.shader_program == old(self).shader_program,
                old(self).wf(),
                c0 == old(self).shader_cache,
                shader_program < self.shader_cache.linked().len(),
            decreases filter_shader_sources@.len() - i,
        {
            let ghost before = self.shader_cache;
            let ghost prev_filters = filter_shader_programs@;
            let ghost prev_ops = ops@;
            let p = self.shader_cache.compile_program(
                DEFAULT_VERTEX_SHADER,
                filter_shader_sources[i].as_str(),
                ops,
            );
            filter_shader_programs.push(p);
            proof {
                lemma_extended_by_trans(c0, before, self.shader_cache);
                lemma_extended_by_trans(c1, before, self.shader_cache);
                lemma_program_stable(
                    before,
                    self.shader_cache,
                    vertex_shader_source@,
                    fragment_shader_source@,
                );
                assert forall|j: int| 0 <= j < i + 1 implies {
                    &&& self.shader_cache.has_program(
                        DEFAULT_VERTEX_SHADER@,
                        filter_shader_sources@[j]@,
                    )
                    &&& (#[trigger] filter_shader_programs@[j]) as int
                        == self.shader_cache.program_for(
                        DEFAULT_VERTEX_SHADER@,
                        filter_shader_sources@[j]@,
                    )
                    &&& filter_shader_programs@[j] < self.shader_cache.linked().len()
                } by {
                    if j < i {
                        let prior = prev_filters[j];
                        assert(filter_shader_programs@[j] == prior);
                        lemma_program_stable(
                            before,
                            self.shader_cache,
                            DEFAULT_VERTEX_SHADER@,
                            filter_shader_sources@[j]@,
                        );
                    } else {
                        assert(filter_shader_programs@[j] == p);
                    }
                }
                let l0 = old(ops)@.len() as int;
                assert(ops@.subrange(0, prev_ops.len() as int) == prev_ops);
                assert forall|t: int| 0 <= t < l0 implies ops@[t] == old(ops)@[t] by {
                    assert(prev_ops.subrange(0, l0)[t] == prev_ops[t]);
                    assert(ops@.subrange(0, prev_ops.len() as int)[t] == ops@[t]);
                }
                assert(ops@.subrange(0, l0) =~= old(ops)@);
            }
            i = i + 1;
        }
        self.shader_program = Some(shader_program);
        self.filter_shader_programs = filter_shader_programs;
        proof {
            lemma_program_stable(
                c1,
                self.shader_cache,
                vertex_shader_source@,
                fragment_shader_source@,
            );
        }
    }

    /// Present one frame: upload the pixel buffer, run the primary pass and
    /// one pass per filter through the ping-pong targets (reallocating
    /// their storage when the logical size changed), then blit the last
    /// output to the window-sized viewport.  The window size affects the
    /// final blit alone.
    #[verifier::loop_isolation(false)]
    pub fn present(
        &mut self,
        dimensions: (usize, usize),
        window_size: (u32, u32),
        ops: &mut Vec<RenderOp>,
    )
        requires
            old(self).wf(),
            old(self).shader_program() is Some,
        ensures
            final(self).wf(),
            final(self).cache() == old(self).cache(),
            final(self).passthrough() == old(self).passthrough(),
            final(self).shader_program() == old(self).shader_program(),
            final(self).filters() == old(self).filters(),
            final(self).target_dimensions() == Some(dimensions),
            final(ops)@ == old(ops)@ + present_emission(
                old(self).shader_program()->0 as int,
                old(self).filters(),
                old(self).passthrough(),
                old(self).target_dimensions() != Some(dimensions),
                dimensions.0,
                dimensions.1,
                window_size.0,
                window_size.1,
            ),
    {
        let ghost emission = present_emission(
            old(self).shader_program()->0 as int,
            old(self).filters(),
            old(self).passthrough(),
            old(self).target_dimensions() != Some(dimensions),
            dimensions.0,
            dimensions.1,
            window_size.0,
            window_size.1,
        );
        let width = dimensions.0;
        let height = dimensions.1;
        let resized = match self.target_dimensions {
            Some(d) => !(d.0 == width && d.1 == height),
            None => true,
        };
        if resized {
            ops.push(RenderOp::ResizeTargets { width, height });
            self.target_dimensions = Some(dimensions);
        }
        ops.push(RenderOp::UploadPixels { width, height });
        let primary = self.shader_program.unwrap();
        let ghost base = ops@.len() as int;
        let ghost filters = self.filter_shader_programs@;
        let ghost passes = Seq::new(
            (filters.len() + 1) as nat,
            |i: int| pass_at(primary as int, filters, width, height, i),
        );
        ops.push(
            RenderOp::OffscreenPass {
                program: primary,
                input: PassInput::PixelTexture,
                output: 1,
                width,
                height,
            },
        );
        proof {
            assert(ops@ =~= old(ops)@ + emission.subrange(0, base - old(ops)@.len() + 1));
        }
        let n = self.filter_shader_programs.len();
        let mut k: usize = 0;
        while k < n
            invariant
                0 <= k <= n,
                n == filters.len(),
                filters == self.filter_shader_programs@,
                ops@.len() == base + 1 + k,
                ops@ == old(ops)@ + emission.subrange(0, base - old(ops)@.len() + 1 + k),
                base - old(ops)@.len() + 1 + k <= emission.len(),
                emission == present_emission(
                    primary as int,
                    filters,
                    old(self).passthrough(),
                    old(self).target_dimensions() != Some(dimensions),
                    width,
                    height,
                    window_size.0,
                    window_size.1,
                ),
                forall|i: int|
                    0 <= i < base - old(ops)@.len() + 1 + k ==> ops@[old(ops)@.len() + i]
                        == emission[i],
            decreases n - k,
        {
            let parity_in: usize = if k % 2 == 0 {
                1
            } else {
                0
            };
            let parity_out: usize = if k % 2 == 0 {
                0
            } else {
                1
            };
            let program = self.filter_shader_programs[k];
            ops.push(
                RenderOp::OffscreenPass {
                    program,
                    input: PassInput::Target { index: parity_in },
                    output: parity_out,
                    width,
                    height,
                },
            );
            proof {
                let i = k + 1;
                assert(pass_at(primary as int, filters, width, height, i as int)
                    == ops@.last());
                assert(ops@ =~= old(ops)@ + emission.subrange(
                    0,
                    base - old(ops)@.len() + 1 + k + 1,
                ));
            }
            k = k + 1;
        }
        let blit_input: usize = if n % 2 == 0 {
            1
        } else {
            0
        };
        ops.push(
            RenderOp::ScreenBlit {
                program: self.passthrough_program,
                input_target: blit_input,
                window_width: window_size.0,
                window_height: window_size.1,
            },
        );
        proof {
            assert((((filters.len() + 1) as int) % 2) as usize == blit_input);
            assert(ops@ =~= old(ops)@ + emission);
        }
    }
}

} // verus!
