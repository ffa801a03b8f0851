use imgui_wgpu::frame::{
    place_lists, prepare_frame, replay, ClipRect, DrawCmd, DrawList, DrawOp, Frame, RenderError,
    Scissor,
};
use imgui_wgpu::stream::{GeometryStream, Vertex};
use imgui_wgpu::textures::TextureTable;

fn vertices(n: usize) -> Vec<Vertex> {
    (0..n as u32).map(|k| Vertex { x: k, y: k, u: 0, v: 0, color: 0xffff_ffff }).collect()
}

fn list(n_vertices: usize, indices: Vec<u16>, commands: Vec<DrawCmd>) -> DrawList {
    DrawList { vertices: vertices(n_vertices), indices, commands }
}

fn elements(count: usize, clip: ClipRect, texture: usize) -> DrawCmd {
    DrawCmd::Elements { count, clip, texture }
}

fn ops_of(lists: &Vec<DrawList>) -> Vec<DrawOp> {
    let mut stream = GeometryStream::new();
    let offsets = place_lists(&mut stream, lists);
    replay(lists, &offsets)
}

#[test]
fn single_list_draws_its_indices_once() {
    let font = 0usize;
    let clip = ClipRect::from_edges(0, 0, 100, 100);
    let lists = vec![list(4, vec![0, 1, 2, 0, 2, 3], vec![elements(6, clip, font)])];
    let ops = ops_of(&lists);
    assert_eq!(
        ops,
        vec![DrawOp::Draw {
            scissor: Scissor { x: 0, y: 0, width: 100, height: 100 },
            texture: font,
            first_index: 0,
            end_index: 6,
            base_vertex: 0,
        }]
    );
}

#[test]
fn second_list_starts_after_the_first() {
    let clip = ClipRect::from_edges(0, 0, 10, 10);
    let lists = vec![
        list(3, vec![0, 1, 2], vec![elements(3, clip, 1)]),
        list(3, vec![0, 1, 2], vec![elements(3, clip, 1)]),
    ];
    let mut stream = GeometryStream::new();
    let offsets = place_lists(&mut stream, &lists);
    assert_eq!(offsets, vec![Some((0, 0)), Some((3, 3))]);
    let ops = replay(&lists, &offsets);
    assert_eq!(ops.len(), 2);
    match ops[1] {
        DrawOp::Draw { first_index, end_index, base_vertex, .. } => {
            assert_eq!((first_index, end_index, base_vertex), (3, 6, 3));
        }
        _ => panic!("expected a draw"),
    }
}

#[test]
fn negative_clip_corner_clamps_to_zero() {
    let clip = ClipRect::from_edges(-5, -5, 50, 50);
    assert_eq!(clip.scissor(), Scissor { x: 0, y: 0, width: 55, height: 55 });
    let lists = vec![list(3, vec![0, 1, 2], vec![elements(3, clip, 2)])];
    match ops_of(&lists)[0] {
        DrawOp::Draw { scissor, .. } => assert_eq!((scissor.x, scissor.y), (0, 0)),
        _ => panic!("expected a draw"),
    }
}

#[test]
fn scissor_saturates_at_u32_bounds() {
    let clip = ClipRect { min_x: 1 << 40, min_y: 7, width: 1 << 33, height: 4 };
    assert_eq!(clip.scissor(), Scissor { x: u32::MAX, y: 7, width: u32::MAX, height: 4 });
}

#[test]
fn reversed_corners_give_positive_extent() {
    let clip = ClipRect::from_edges(30, 40, 10, 5);
    assert_eq!(clip, ClipRect { min_x: 30, min_y: 40, width: 20, height: 35 });
    let far = ClipRect::from_edges(i64::MIN, 0, i64::MAX, 0);
    assert_eq!(far.width, u64::MAX);
}

#[test]
fn commands_advance_the_index_cursor() {
    let a = ClipRect::from_edges(0, 0, 5, 5);
    let b = ClipRect::from_edges(1, 2, 3, 4);
    let lists = vec![list(
        4,
        vec![0, 1, 2, 0, 2, 3],
        vec![
            elements(3, a, 0),
            DrawCmd::ResetRenderState,
            DrawCmd::RawCallback,
            elements(3, b, 4),
        ],
    )];
    let ops = ops_of(&lists);
    assert_eq!(
        ops,
        vec![
            DrawOp::Draw {
                scissor: Scissor { x: 0, y: 0, width: 5, height: 5 },
                texture: 0,
                first_index: 0,
                end_index: 3,
                base_vertex: 0,
            },
            DrawOp::Callback { list: 0, command: 2 },
            DrawOp::Draw {
                scissor: Scissor { x: 1, y: 2, width: 2, height: 2 },
                texture: 4,
                first_index: 3,
                end_index: 6,
                base_vertex: 0,
            },
        ]
    );
}

#[test]
fn list_that_does_not_fit_is_skipped_and_later_lists_go_on() {
    let clip = ClipRect::from_edges(0, 0, 1, 1);
    let lists = vec![
        list(1, vec![0; 65536], vec![elements(65536, clip, 0), DrawCmd::RawCallback]),
        list(2, vec![0, 1], vec![elements(2, clip, 0)]),
    ];
    let mut stream = GeometryStream::new();
    let offsets = place_lists(&mut stream, &lists);
    assert_eq!(offsets, vec![None, Some((0, 0))]);
    assert_eq!(stream.index_count(), 2);
    assert_eq!(stream.vertex_count(), 2);
    let ops = replay(&lists, &offsets);
    assert_eq!(ops.len(), 1);
}

#[test]
fn frame_naming_an_unknown_texture_is_refused() {
    let mut stream = GeometryStream::new();
    let textures = TextureTable::new();
    let clip = ClipRect::from_edges(0, 0, 1, 1);
    let frame = Frame { lists: vec![list(3, vec![0, 1, 2], vec![elements(3, clip, 9)])] };
    assert_eq!(prepare_frame(&mut stream, &textures, &frame), Err(RenderError::UnknownTexture(9)));
    assert_eq!(stream.index_count(), 0);
    assert_eq!(stream.vertex_count(), 0);
}

#[test]
fn frame_with_commands_past_its_indices_is_refused() {
    let mut stream = GeometryStream::new();
    let textures = TextureTable::new();
    let clip = ClipRect::from_edges(0, 0, 1, 1);
    let frame = Frame {
        lists: vec![
            list(3, vec![0, 1, 2], vec![DrawCmd::RawCallback]),
            list(3, vec![0, 1, 2], vec![elements(2, clip, 0), elements(2, clip, 0)]),
        ],
    };
    assert_eq!(prepare_frame(&mut stream, &textures, &frame), Err(RenderError::IndicesOverrun(1)));
    assert_eq!(stream.index_count(), 0);
}

#[test]
fn frame_of_callbacks_needs_no_texture() {
    let mut stream = GeometryStream::new();
    let textures = TextureTable::new();
    let frame = Frame {
        lists: vec![
            list(1, vec![0], vec![DrawCmd::RawCallback]),
            list(2, vec![0, 1], vec![DrawCmd::ResetRenderState, DrawCmd::RawCallback]),
        ],
    };
    let ops = prepare_frame(&mut stream, &textures, &frame);
    assert_eq!(
        ops,
        Ok(vec![DrawOp::Callback { list: 0, command: 0 }, DrawOp::Callback { list: 1, command: 1 }])
    );
    assert_eq!(stream.index_count(), 3);
    assert_eq!(stream.vertex_count(), 3);
}
