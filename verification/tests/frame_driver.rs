use pxl::display::RenderOp;
use pxl::runtime::Runtime;
use pxl::shader_cache::ShaderOp;

type TestPixel = (f32, f32, f32, f32);

const BLACK: TestPixel = (0.0, 0.0, 0.0, 1.0);

fn fresh_runtime() -> Runtime<TestPixel> {
    let mut shader_ops: Vec<ShaderOp> = Vec::new();
    Runtime::new("pxl".to_string(), BLACK, &mut shader_ops)
}

#[test]
fn buffer_follows_program_dimensions() {
    let mut runtime = fresh_runtime();
    runtime.apply_dimensions((4, 4));
    assert_eq!(runtime.pixels.pixels.len(), 16);
    assert!(runtime.pixels.pixels.iter().all(|p| *p == BLACK));
    // unchanged dimensions leave the buffer exactly as rendered
    runtime.pixels.pixels[3] = (0.5, 0.5, 0.5, 1.0);
    runtime.apply_dimensions((4, 4));
    assert_eq!(runtime.pixels.pixels.len(), 16);
    assert_eq!(runtime.pixels.pixels[3], (0.5, 0.5, 0.5, 1.0));
    // growing keeps old entries and fills the rest with the default
    runtime.apply_dimensions((8, 8));
    assert_eq!(runtime.pixels.pixels.len(), 64);
    assert_eq!(runtime.pixels.pixels[3], (0.5, 0.5, 0.5, 1.0));
    assert_eq!(runtime.pixels.pixels[63], BLACK);
}

#[test]
fn frame_presents_at_buffer_dimensions() {
    let mut runtime = fresh_runtime();
    let mut shader_ops: Vec<ShaderOp> = Vec::new();
    runtime.display.set_shaders("v", "f", &Vec::new(), &mut shader_ops);
    runtime.apply_dimensions((4, 4));
    let mut ops: Vec<RenderOp> = Vec::new();
    runtime.present_frame((640, 480), &mut ops);
    assert_eq!(ops[0], RenderOp::ResizeTargets { width: 4, height: 4 });
    assert_eq!(ops[1], RenderOp::UploadPixels { width: 4, height: 4 });
    // the buffer itself is untouched by presenting, whatever the window
    assert_eq!(runtime.pixels.pixels.len(), 16);
    let mut ops2: Vec<RenderOp> = Vec::new();
    runtime.present_frame((111, 222), &mut ops2);
    assert_eq!(runtime.pixels.pixels.len(), 16);
}

#[test]
fn quit_flag_combines_program_and_window() {
    let mut runtime = fresh_runtime();
    assert!(!runtime.should_quit());
    runtime.update_should_quit(false, false);
    assert!(!runtime.should_quit());
    runtime.update_should_quit(true, false);
    assert!(runtime.should_quit());
    runtime.update_should_quit(false, true);
    assert!(runtime.should_quit());
    runtime.update_should_quit(false, false);
    assert!(!runtime.should_quit());
}

#[test]
fn title_changes_are_reported_once() {
    let mut runtime = fresh_runtime();
    assert!(!runtime.update_title("pxl"));
    assert!(runtime.update_title("mono|chrome"));
    assert!(!runtime.update_title("mono|chrome"));
    assert!(runtime.update_title("pxl"));
}
