use pxl::shader_cache::{ShaderCache, ShaderOp, ShaderStage};

#[test]
fn compile_same_source_twice_returns_same_handle() {
    let mut cache = ShaderCache::new();
    let mut ops: Vec<ShaderOp> = Vec::new();
    let a = cache.compile_vertex_shader("void main() {}", &mut ops);
    let b = cache.compile_vertex_shader("void main() {}", &mut ops);
    assert_eq!(a, b);
    // the backend compiler was asked exactly once for that source
    assert_eq!(
        ops,
        vec![ShaderOp::CompileShader {
            stage: ShaderStage::Vertex,
            handle: a,
            source: "void main() {}".to_string(),
        }]
    );
}

#[test]
fn vertex_and_fragment_caches_are_independent() {
    let mut cache = ShaderCache::new();
    let mut ops: Vec<ShaderOp> = Vec::new();
    let v = cache.compile_vertex_shader("shared text", &mut ops);
    let f = cache.compile_fragment_shader("shared text", &mut ops);
    // the same text compiles once per stage: two compile operations
    assert_eq!(ops.len(), 2);
    assert_eq!(
        ops[0],
        ShaderOp::CompileShader {
            stage: ShaderStage::Vertex,
            handle: v,
            source: "shared text".to_string(),
        }
    );
    assert_eq!(
        ops[1],
        ShaderOp::CompileShader {
            stage: ShaderStage::Fragment,
            handle: f,
            source: "shared text".to_string(),
        }
    );
}

#[test]
fn program_links_once_per_handle_pair() {
    let mut cache = ShaderCache::new();
    let mut ops: Vec<ShaderOp> = Vec::new();
    let p1 = cache.compile_program("v", "f", &mut ops);
    assert_eq!(
        ops,
        vec![
            ShaderOp::CompileShader {
                stage: ShaderStage::Vertex,
                handle: 0,
                source: "v".to_string(),
            },
            ShaderOp::CompileShader {
                stage: ShaderStage::Fragment,
                handle: 0,
                source: "f".to_string(),
            },
            ShaderOp::LinkProgram { program: 0, vertex: 0, fragment: 0 },
        ]
    );
    let mut more: Vec<ShaderOp> = Vec::new();
    let p2 = cache.compile_program("v", "f", &mut more);
    assert_eq!(p1, p2);
    // everything was cached: no further backend work
    assert!(more.is_empty());
}

#[test]
fn distinct_pairs_link_distinct_programs() {
    let mut cache = ShaderCache::new();
    let mut ops: Vec<ShaderOp> = Vec::new();
    let p1 = cache.compile_program("v", "f1", &mut ops);
    let p2 = cache.compile_program("v", "f2", &mut ops);
    assert_ne!(p1, p2);
    // the shared vertex shader compiled once; each fragment once; two links
    let compiles = ops
        .iter()
        .filter(|op| matches!(op, ShaderOp::CompileShader { .. }))
        .count();
    let links = ops
        .iter()
        .filter(|op| matches!(op, ShaderOp::LinkProgram { .. }))
        .count();
    assert_eq!(compiles, 3);
    assert_eq!(links, 2);
}
