use pxl::display::{Display, PassInput, RenderOp};
use pxl::shader_cache::ShaderOp;

fn display_with_filters(filters: &[&str]) -> Display {
    let mut shader_ops: Vec<ShaderOp> = Vec::new();
    let mut display = Display::new(&mut shader_ops);
    let filter_sources: Vec<String> = filters.iter().map(|s| s.to_string()).collect();
    display.set_shaders("vertex source", "fragment source", &filter_sources, &mut shader_ops);
    display
}

#[test]
fn no_filters_one_pass_and_one_blit() {
    // dimensions (4, 4), no filters: one off-screen pass, then the blit
    let mut display = display_with_filters(&[]);
    let mut ops: Vec<RenderOp> = Vec::new();
    display.present((4, 4), (640, 480), &mut ops);
    assert_eq!(
        ops,
        vec![
            RenderOp::ResizeTargets { width: 4, height: 4 },
            RenderOp::UploadPixels { width: 4, height: 4 },
            RenderOp::OffscreenPass {
                program: 1,
                input: PassInput::PixelTexture,
                output: 1,
                width: 4,
                height: 4,
            },
            RenderOp::ScreenBlit {
                program: 0,
                input_target: 1,
                window_width: 640,
                window_height: 480,
            },
        ]
    );
    // a second frame at the same size reallocates nothing
    let mut second: Vec<RenderOp> = Vec::new();
    display.present((4, 4), (640, 480), &mut second);
    assert_eq!(second.len(), 3);
    assert_eq!(second[0], RenderOp::UploadPixels { width: 4, height: 4 });
}

#[test]
fn two_filters_ping_pong() {
    // primary pass into one target, filter 1 reads it and writes the
    // other, filter 2 reads that and writes the first again, and the blit
    // reads the last output
    let mut display = display_with_filters(&["filter one", "filter two"]);
    let mut ops: Vec<RenderOp> = Vec::new();
    display.present((8, 8), (320, 200), &mut ops);
    assert_eq!(
        ops,
        vec![
            RenderOp::ResizeTargets { width: 8, height: 8 },
            RenderOp::UploadPixels { width: 8, height: 8 },
            RenderOp::OffscreenPass {
                program: 1,
                input: PassInput::PixelTexture,
                output: 1,
                width: 8,
                height: 8,
            },
            RenderOp::OffscreenPass {
                program: 2,
                input: PassInput::Target { index: 1 },
                output: 0,
                width: 8,
                height: 8,
            },
            RenderOp::OffscreenPass {
                program: 3,
                input: PassInput::Target { index: 0 },
                output: 1,
                width: 8,
                height: 8,
            },
            RenderOp::ScreenBlit {
                program: 0,
                input_target: 1,
                window_width: 320,
                window_height: 200,
            },
        ]
    );
}

#[test]
fn window_resize_changes_only_the_blit() {
    let mut display = display_with_filters(&["filter"]);
    let mut warmup: Vec<RenderOp> = Vec::new();
    display.present((4, 4), (100, 100), &mut warmup);
    // same logical size, two different window sizes
    let mut first: Vec<RenderOp> = Vec::new();
    display.present((4, 4), (100, 100), &mut first);
    let mut second: Vec<RenderOp> = Vec::new();
    display.present((4, 4), (555, 777), &mut second);
    assert_eq!(first.len(), second.len());
    assert_eq!(first[..first.len() - 1], second[..second.len() - 1]);
    assert_eq!(
        first[first.len() - 1],
        RenderOp::ScreenBlit {
            program: 0,
            input_target: 0,
            window_width: 100,
            window_height: 100,
        }
    );
    assert_eq!(
        second[second.len() - 1],
        RenderOp::ScreenBlit {
            program: 0,
            input_target: 0,
            window_width: 555,
            window_height: 777,
        }
    );
}

#[test]
fn changing_dimensions_reallocates_targets() {
    let mut display = display_with_filters(&[]);
    let mut first: Vec<RenderOp> = Vec::new();
    display.present((4, 4), (100, 100), &mut first);
    assert_eq!(first[0], RenderOp::ResizeTargets { width: 4, height: 4 });
    // the logical size changes mid-run: both targets are reallocated
    // before any pass of the next frame reads or writes them
    let mut second: Vec<RenderOp> = Vec::new();
    display.present((8, 8), (100, 100), &mut second);
    assert_eq!(second[0], RenderOp::ResizeTargets { width: 8, height: 8 });
    assert_eq!(second[1], RenderOp::UploadPixels { width: 8, height: 8 });
    assert!(matches!(
        second[2],
        RenderOp::OffscreenPass { width: 8, height: 8, .. }
    ));
}
