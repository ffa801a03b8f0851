use vstd::prelude::*;

use crate::stream::{fits, GeometryStream, StreamView, Vertex, INDEX_CAPACITY, VERTEX_CAPACITY};
use crate::textures::TextureTable;

verus! {

/// A clip rectangle in whole pixels: its top-left corner rounded down, and
/// its width and height (the absolute differences of the corners) rounded up.
#[derive(Clone, Copy, Debug, PartialEq, Eq, Structural)]
pub struct ClipRect {
    pub min_x: i64,
    pub min_y: i64,
    pub width: u64,
    pub height: u64,
}

/// A scissor rectangle as the GPU takes it.
#[derive(Clone, Copy, Debug, PartialEq, Eq, Structural)]
pub struct Scissor {
    pub x: u32,
    pub y: u32,
    pub width: u32,
    pub height: u32,
}

/// `v` brought into the range of `u32`.
pub open spec fn clamp_u32(v: int) -> u32 {
    if v < 0 {
        0u32
    } else if v > u32::MAX {
        u32::MAX
    } else {
        v as u32
    }
}

/// The absolute difference of two coordinates.
pub open spec fn distance(a: int, b: int) -> int {
    if a <= b {
        b - a
    } else {
        a - b
    }
}

/// The scissor of a clip rectangle: the corner clamped to be non-negative,
/// everything held within `u32`.
pub open spec fn scissor_of(c: ClipRect) -> Scissor {
    Scissor {
        x: clamp_u32(c.min_x as int),
        y: clamp_u32(c.min_y as int),
        width: clamp_u32(c.width as int),
        height: clamp_u32(c.height as int),
    }
}

fn clamp_signed(v: i64) -> (r: u32)
    ensures
        r == clamp_u32(v as int),
{
    if v < 0 {
        0
    } else if v > u32::MAX as i64 {
        u32::MAX
    } else {
        v as u32
    }
}

fn clamp_unsigned(v: u64) -> (r: u32)
    ensures
        r == clamp_u32(v as int),
{
    if v > u32::MAX as u64 {
        u32::MAX
    } else {
        v as u32
    }
}

fn distance_i64(a: i64, b: i64) -> (r: u64)
    ensures
        r as int == distance(a as int, b as int),
{
    if a <= b {
        (b as i128 - a as i128) as u64
    } else {
        (a as i128 - b as i128) as u64
    }
}

impl ClipRect {
    /// The clip rectangle with corners `(x1, y1)` and `(x2, y2)`, given in
    /// whole pixels.
    pub fn from_edges(x1: i64, y1: i64, x2: i64, y2: i64) -> (r: ClipRect)
        ensures
            r.min_x == x1,
            r.min_y == y1,
            r.width as int == distance(x1 as int, x2 as int),
            r.height as int == distance(y1 as int, y2 as int),
    {
        ClipRect {
            min_x: x1,
            min_y: y1,
            width: distance_i64(x1, x2),
            height: distance_i64(y1, y2),
        }
    }

    /// The scissor rectangle that restricts drawing to this clip rectangle.
    pub fn scissor(&self) -> (r: Scissor)
        ensures
            r == scissor_of(*self),
    {
        Scissor {
            x: clamp_signed(self.min_x),
            y: clamp_signed(self.min_y),
            width: clamp_unsigned(self.width),
            height: clamp_unsigned(self.height),
        }
    }
}

/// One draw command of a draw list.
#[derive(Clone, Copy, Debug, PartialEq, Eq, Structural)]
pub enum DrawCmd {
    /// Draws the next `count` indices of the list with a texture, clipped.
    Elements { count: usize, clip: ClipRect, texture: usize },
    /// Asks the caller to restore its render state; not acted on here.
    ResetRenderState,
    /// A callback of the caller, run with the list's native handle.
    RawCallback,
}

/// One GUI layer's geometry and draw commands.
pub struct DrawList {
    pub vertices: Vec<Vertex>,
    pub indices: Vec<u16>,
    pub commands: Vec<DrawCmd>,
}

/// One frame's draw lists, in drawing order.
pub struct Frame {
    pub lists: Vec<DrawList>,
}

/// What the GPU is told to do, in order.
#[derive(Clone, Copy, Debug, PartialEq, Eq, Structural)]
pub enum DrawOp {
    /// Set the scissor, bind the texture and draw the indices
    /// `first_index .. end_index`, each shifted by `base_vertex`.
    Draw { scissor: Scissor, texture: usize, first_index: u32, end_index: u32, base_vertex: u32 },
    /// Run the callback of command `command` of draw list `list`.
    Callback { list: usize, command: usize },
}

/// Why a frame was refused before any of it was staged.
#[derive(Clone, Copy, Debug, PartialEq, Eq, Structural)]
pub enum RenderError {
    /// A draw command names a texture handle that is not registered.
    UnknownTexture(usize),
    /// The draw commands of the list at this position cover more indices
    /// than the list has. Draw data must not do this: every element command
    /// draws indices of its own list.
    IndicesOverrun(usize),
}

/// Indices covered by the element commands of `cmds`.
pub open spec fn elements_count(cmds: Seq<DrawCmd>) -> int
    decreases cmds.len(),
{
    if cmds.len() == 0 {
        0
    } else {
        elements_count(cmds.drop_last()) + match cmds.last() {
            DrawCmd::Elements { count, .. } => count as int,
            _ => 0,
        }
    }
}

/// Whether a stream holding `ni` indices and `nv` vertices takes the list.
pub open spec fn accepts(ni: int, nv: int, l: DrawList) -> bool {
    &&& fits(ni, l.indices@.len() as int, INDEX_CAPACITY as int)
    &&& fits(nv, l.vertices@.len() as int, VERTEX_CAPACITY as int)
}

/// Index and vertex counts of a stream that held `ni` and `nv` once it has
/// been offered `lists` in order; a list that does not fit is skipped.
pub open spec fn counts_after(lists: Seq<DrawList>, ni: int, nv: int) -> (int, int)
    decreases lists.len(),
{
    if lists.len() == 0 {
        (ni, nv)
    } else {
        let (a, b) = counts_after(lists.drop_last(), ni, nv);
        let l = lists.last();
        if accepts(a, b, l) {
            (a + l.indices@.len(), b + l.vertices@.len())
        } else {
            (a, b)
        }
    }
}

/// Where list `i` is placed, as (index offset, vertex offset), when `lists`
/// are offered in order to a stream holding `ni` indices and `nv` vertices;
/// `None` when it does not fit.
pub open spec fn placement(lists: Seq<DrawList>, i: int, ni: int, nv: int) -> Option<(u64, u64)> {
    let (a, b) = counts_after(lists.subrange(0, i), ni, nv);
    if accepts(a, b, lists[i]) {
        Some((a as u64, b as u64))
    } else {
        None
    }
}

/// The placements of all lists.
pub open spec fn placements(lists: Seq<DrawList>, ni: int, nv: int) -> Seq<Option<(u64, u64)>> {
    Seq::new(lists.len(), |i: int| placement(lists, i, ni, nv))
}

/// The indices that offering `lists` in order adds to a stream.
pub open spec fn frame_indices(lists: Seq<DrawList>, ni: int, nv: int) -> Seq<u16>
    decreases lists.len(),
{
    if lists.len() == 0 {
        Seq::empty()
    } else {
        let (a, b) = counts_after(lists.drop_last(), ni, nv);
        frame_indices(lists.drop_last(), ni, nv) + if accepts(a, b, lists.last()) {
            lists.last().indices@
        } else {
            Seq::empty()
        }
    }
}

/// The vertices that offering `lists` in order adds to a stream.
pub open spec fn frame_vertices(lists: Seq<DrawList>, ni: int, nv: int) -> Seq<Vertex>
    decreases lists.len(),
{
    if lists.len() == 0 {
        Seq::empty()
    } else {
        let (a, b) = counts_after(lists.drop_last(), ni, nv);
        frame_vertices(lists.drop_last(), ni, nv) + if accepts(a, b, lists.last()) {
            lists.last().vertices@
        } else {
            Seq::empty()
        }
    }
}

/// What command `command` of list `list` asks for, when its indices start at
/// `cursor` and the list's vertices at `base_vertex`.
pub open spec fn command_ops(
    c: DrawCmd,
    list: int,
    command: int,
    cursor: int,
    base_vertex: int,
) -> Seq<DrawOp> {
    match c {
        DrawCmd::Elements { count, clip, texture } => seq![
            DrawOp::Draw {
                scissor: scissor_of(clip),
                texture,
                first_index: cursor as u32,
                end_index: (cursor + count) as u32,
                base_vertex: base_vertex as u32,
            },
        ],
        DrawCmd::ResetRenderState => Seq::empty(),
        DrawCmd::RawCallback => seq![DrawOp::Callback { list: list as usize, command: command as usize }],
    }
}

/// The operations of the commands of list `list`, placed at `first` (its
/// index offset) and `base_vertex` (its vertex offset): element commands
/// take consecutive index ranges from `first` on.
pub open spec fn list_ops(cmds: Seq<DrawCmd>, list: int, first: int, base_vertex: int) -> Seq<DrawOp>
    decreases cmds.len(),
{
    if cmds.len() == 0 {
        Seq::empty()
    } else {
        list_ops(cmds.drop_last(), list, first, base_vertex) + command_ops(
            cmds.last(),
            list,
            cmds.len() - 1,
            first + elements_count(cmds.drop_last()),
            base_vertex,
        )
    }
}

/// The operations of `lists` given where each was placed: those of a list
/// that was not placed are left out.
pub open spec fn replay_ops(lists: Seq<DrawList>, offsets: Seq<Option<(u64, u64)>>) -> Seq<DrawOp>
    decreases lists.len(),
{
    if lists.len() == 0 || offsets.len() < lists.len() {
        Seq::empty()
    } else {
        let i = lists.len() - 1;
        replay_ops(lists.drop_last(), offsets) + match offsets[i] {
            Some((a, b)) => list_ops(lists[i].commands@, i, a as int, b as int),
            None => Seq::empty(),
        }
    }
}

/// The operations of a frame whose lists are offered to a stream holding
/// `ni` indices and `nv` vertices.
pub open spec fn frame_ops(lists: Seq<DrawList>, ni: int, nv: int) -> Seq<DrawOp> {
    replay_ops(lists, placements(lists, ni, nv))
}

/// Whether a list placed at `o` lies within the stream's capacities.
pub open spec fn placed_within(o: Option<(u64, u64)>, l: DrawList) -> bool {
    match o {
        Some((a, b)) => accepts(a as int, b as int, l),
        None => true,
    }
}

/// Whether some element command of `lists` names texture `id`.
pub open spec fn names_texture(lists: Seq<DrawList>, id: usize) -> bool {
    exists|i: int, j: int|
        0 <= i < lists.len() && 0 <= j < lists[i].commands@.len()
            && (#[trigger] lists[i].commands@[j]) is Elements && lists[i].commands@[j]->texture
            == id
}

/// Whether every element command names a live texture.
pub open spec fn textures_resolve(lists: Seq<DrawList>, live: Set<usize>) -> bool {
    forall|i: int, j: int|
        0 <= i < lists.len() && 0 <= j < lists[i].commands@.len()
            && (#[trigger] lists[i].commands@[j]) is Elements ==> live.contains(
            lists[i].commands@[j]->texture,
        )
}

/// Whether the element commands of each list stay within its indices.
pub open spec fn commands_fit(lists: Seq<DrawList>) -> bool {
    forall|i: int|
        0 <= i < lists.len() ==> elements_count(#[trigger] lists[i].commands@)
            <= lists[i].indices@.len()
}


/// Element commands of a prefix cover no more indices than all commands.
pub proof fn lemma_elements_prefix(cmds: Seq<DrawCmd>, j: int)
    requires
        0 <= j <= cmds.len(),
    ensures
        0 <= elements_count(cmds.subrange(0, j)) <= elements_count(cmds),
    decreases cmds.len(),
{
    if j == cmds.len() {
        assert(cmds.subrange(0, j) == cmds);
        lemma_elements_nonneg(cmds);
    } else {
        let rest = cmds.drop_last();
        lemma_elements_prefix(rest, j);
        assert(rest.subrange(0, j) == cmds.subrange(0, j));
    }
}

/// Element commands cover a non-negative number of indices.
pub proof fn lemma_elements_nonneg(cmds: Seq<DrawCmd>)
    ensures
        elements_count(cmds) >= 0,
    decreases cmds.len(),
{
    if cmds.len() > 0 {
        lemma_elements_nonneg(cmds.drop_last());
    }
}

/// Whether the element commands of `list` stay within its indices.
pub fn commands_fit_list(list: &DrawList) -> (r: bool)
    ensures
        r == (elements_count(list.commands@) <= list.indices@.len()),
{
    let cmds = &list.commands;
    let limit = list.indices.len();
    let mut total: usize = 0;
    let mut j: usize = 0;
    while j < cmds.len()
        invariant
            0 <= j <= cmds@.len(),
            limit == list.indices@.len(),
            cmds@ == list.commands@,
            total as int == elements_count(cmds@.subrange(0, j as int)),
            total <= limit,
        decreases cmds@.len() - j,
    {
        proof {
            let next = cmds@.subrange(0, j + 1);
            assert(next.drop_last() == cmds@.subrange(0, j as int));
            assert(next.last() == cmds@[j as int]);
        }
        match cmds[j] {
            DrawCmd::Elements { count, .. } => {
                if count > limit - total {
                    proof {
                        lemma_elements_prefix(cmds@, j + 1);
                    }
                    return false;
                }
                total = total + count;
            },
            _ => {},
        }
        j = j + 1;
    }
    proof {
        assert(cmds@.subrange(0, cmds@.len() as int) == cmds@);
    }
    true
}

/// The first list, by position, whose element commands run past its indices.
pub fn find_overrun(lists: &Vec<DrawList>) -> (r: Option<usize>)
    ensures
        r is None <==> commands_fit(lists@),
        r is Some ==> r->0 < lists@.len() && elements_count(lists@[r->0 as int].commands@)
            > lists@[r->0 as int].indices@.len(),
{
    let mut i: usize = 0;
    while i < lists.len()
        invariant
            0 <= i <= lists@.len(),
            forall|k: int|
                0 <= k < i ==> elements_count(#[trigger] lists@[k].commands@)
                    <= lists@[k].indices@.len(),
        decreases lists@.len() - i,
    {
        if !commands_fit_list(&lists[i]) {
            return Some(i);
        }
        i = i + 1;
    }
    None
}

/// A texture handle named by an element command that `textures` does not
/// hold, if there is one.
pub fn find_unknown_texture(lists: &Vec<DrawList>, textures: &TextureTable) -> (r: Option<usize>)
    ensures
        r is None <==> textures_resolve(lists@, textures@.dom()),
        r is Some ==> !textures@.dom().contains(r->0) && names_texture(lists@, r->0),
{
    let mut i: usize = 0;
    while i < lists.len()
        invariant
            0 <= i <= lists@.len(),
            forall|k: int, j: int|
                0 <= k < i && 0 <= j < lists@[k].commands@.len()
                    && (#[trigger] lists@[k].commands@[j]) is Elements ==> textures@.dom().contains(
                    lists@[k].commands@[j]->texture,
                ),
        decreases lists@.len() - i,
    {
        let cmds = &lists[i].commands;
        let mut j: usize = 0;
        while j < cmds.len()
            invariant
                0 <= i < lists@.len(),
                0 <= j <= cmds@.len(),
                cmds@ == lists@[i as int].commands@,
                forall|k: int, j: int|
                    0 <= k < i && 0 <= j < lists@[k].commands@.len()
                        && (#[trigger] lists@[k].commands@[j]) is Elements ==> textures@.dom().contains(
                        lists@[k].commands@[j]->texture,
                    ),
                forall|m: int|
                    0 <= m < j && (#[trigger] cmds@[m]) is Elements ==> textures@.dom().contains(
                        cmds@[m]->texture,
                    ),
            decreases cmds@.len() - j,
        {
            match cmds[j] {
                DrawCmd::Elements { texture, .. } => {
                    if !textures.contains(texture) {
                        proof {
                            assert(lists@[i as int].commands@[j as int] is Elements);
                            assert(names_texture(lists@, texture));
                        }
                        return Some(texture);
                    }
                },
                _ => {},
            }
            j = j + 1;
        }
        i = i + 1;
    }
    None
}

/// Offers each list of the frame, in order, to the stream: a list whose
/// geometry fits is appended whole, one that does not is skipped. Returns
/// where each list was placed.
pub fn place_lists(stream: &mut GeometryStream, lists: &Vec<DrawList>) -> (r: Vec<
    Option<(u64, u64)>,
>)
    requires
        old(stream).wf(),
    ensures
        final(stream).wf(),
        r@ == placements(lists@, old(stream)@.indices.len() as int, old(stream)@.vertices.len() as int),
        final(stream)@.indices == old(stream)@.indices + frame_indices(
            lists@,
            old(stream)@.indices.len() as int,
            old(stream)@.vertices.len() as int,
        ),
        final(stream)@.vertices == old(stream)@.vertices + frame_vertices(
            lists@,
            old(stream)@.indices.len() as int,
            old(stream)@.vertices.len() as int,
        ),
        forall|i: int| 0 <= i < lists@.len() ==> placed_within(#[trigger] r@[i], lists@[i]),
{
    let ghost ni = old(stream)@.indices.len() as int;
    let ghost nv = old(stream)@.vertices.len() as int;
    let ghost start = stream@;
    let mut offsets: Vec<Option<(u64, u64)>> = Vec::new();
    let mut i: usize = 0;
    while i < lists.len()
        invariant
            0 <= i <= lists@.len(),
            stream.wf(),
            start == old(stream)@,
            ni == start.indices.len(),
            nv == start.vertices.len(),
            counts_after(lists@.subrange(0, i as int), ni, nv) == (
                stream@.indices.len() as int,
                stream@.vertices.len() as int,
            ),
            stream@.indices == start.indices + frame_indices(lists@.subrange(0, i as int), ni, nv),
            stream@.vertices == start.vertices + frame_vertices(
                lists@.subrange(0, i as int),
                ni,
                nv,
            ),
            offsets@.len() == i,
            forall|k: int| 0 <= k < i ==> offsets@[k] == placement(lists@, k, ni, nv),
            forall|k: int| 0 <= k < i ==> placed_within(#[trigger] offsets@[k], lists@[k]),
        decreases lists@.len() - i,
    {
        let list = &lists[i];
        let placed = stream.append(list.vertices.as_slice(), list.indices.as_slice());
        proof {
            let next = lists@.subrange(0, i + 1);
            assert(next.drop_last() == lists@.subrange(0, i as int));
            assert(next.last() == lists@[i as int]);
            if placed is Some {
                assert(stream@.indices == start.indices + frame_indices(next, ni, nv));
                assert(stream@.vertices == start.vertices + frame_vertices(next, ni, nv));
            } else {
                assert(frame_indices(next, ni, nv) == frame_indices(
                    lists@.subrange(0, i as int),
                    ni,
                    nv,
                ));
                assert(frame_vertices(next, ni, nv) == frame_vertices(
                    lists@.subrange(0, i as int),
                    ni,
                    nv,
                ));
            }
        }
        offsets.push(placed);
        i = i + 1;
    }
    proof {
        assert(lists@.subrange(0, lists@.len() as int) == lists@);
        assert(offsets@ == placements(lists@, ni, nv));
    }
    offsets
}

/// Appends to `ops` the operations of the commands of `list`, placed at
/// index offset `first` and vertex offset `base_vertex`.
pub fn replay_list(
    list: &DrawList,
    index: usize,
    first: u64,
    base_vertex: u64,
    ops: &mut Vec<DrawOp>,
)
    requires
        first + list.indices@.len() < INDEX_CAPACITY,
        base_vertex < VERTEX_CAPACITY,
        elements_count(list.commands@) <= list.indices@.len(),
    ensures
        final(ops)@ == old(ops)@ + list_ops(
            list.commands@,
            index as int,
            first as int,
            base_vertex as int,
        ),
{
    let cmds = &list.commands;
    let mut cursor: u64 = first;
    let mut j: usize = 0;
    while j < cmds.len()
        invariant
            0 <= j <= cmds@.len(),
            cmds@ == list.commands@,
            first + list.indices@.len() < INDEX_CAPACITY,
            base_vertex < VERTEX_CAPACITY,
            elements_count(cmds@) <= list.indices@.len(),
            cursor as int == first + elements_count(cmds@.subrange(0, j as int)),
            ops@ == old(ops)@ + list_ops(
                cmds@.subrange(0, j as int),
                index as int,
                first as int,
                base_vertex as int,
            ),
        decreases cmds@.len() - j,
    {
        proof {
            let next = cmds@.subrange(0, j + 1);
            assert(next.drop_last() == cmds@.subrange(0, j as int));
            assert(next.last() == cmds@[j as int]);
            lemma_elements_prefix(cmds@, j + 1);
            lemma_elements_prefix(cmds@, j as int);
        }
        match cmds[j] {
            DrawCmd::Elements { count, clip, texture } => {
                let end = cursor + count as u64;
                ops.push(
                    DrawOp::Draw {
                        scissor: clip.scissor(),
                        texture,
                        first_index: cursor as u32,
                        end_index: end as u32,
                        base_vertex: base_vertex as u32,
                    },
                );
                cursor = end;
            },
            DrawCmd::ResetRenderState => {},
            DrawCmd::RawCallback => {
                ops.push(DrawOp::Callback { list: index, command: j });
            },
        }
        proof {
            assert(ops@ == old(ops)@ + list_ops(
                cmds@.subrange(0, j + 1),
                index as int,
                first as int,
                base_vertex as int,
            ));
        }
        j = j + 1;
    }
    proof {
        assert(cmds@.subrange(0, cmds@.len() as int) == cmds@);
    }
}

/// The operations of every placed list, in list order.
pub fn replay(lists: &Vec<DrawList>, offsets: &Vec<Option<(u64, u64)>>) -> (r: Vec<DrawOp>)
    requires
        offsets@.len() == lists@.len(),
        commands_fit(lists@),
        forall|i: int| 0 <= i < lists@.len() ==> placed_within(#[trigger] offsets@[i], lists@[i]),
    ensures
        r@ == replay_ops(lists@, offsets@),
{
    let mut ops: Vec<DrawOp> = Vec::new();
    let mut i: usize = 0;
    while i < lists.len()
        invariant
            0 <= i <= lists@.len(),
            offsets@.len() == lists@.len(),
            commands_fit(lists@),
            forall|i: int| 0 <= i < lists@.len() ==> placed_within(#[trigger] offsets@[i], lists@[i]),
            ops@ == replay_ops(lists@.subrange(0, i as int), offsets@),
        decreases lists@.len() - i,
    {
        proof {
            let next = lists@.subrange(0, i + 1);
            assert(next.drop_last() == lists@.subrange(0, i as int));
            assert(next[i as int] == lists@[i as int]);
            assert(placed_within(offsets@[i as int], lists@[i as int]));
            assert(elements_count(lists@[i as int].commands@) <= lists@[i as int].indices@.len());
        }
        match offsets[i] {
            Some((first, base_vertex)) => {
                replay_list(&lists[i], i, first, base_vertex, &mut ops);
            },
            None => {},
        }
        i = i + 1;
    }
    proof {
        assert(lists@.subrange(0, lists@.len() as int) == lists@);
    }
    ops
}

/// Turns a frame into GPU operations. The frame is refused, with the stream
/// left as it was, when a command names a texture that `textures` does not
/// hold, or when draw data breaks its own shape (a list whose element
/// commands run past its indices), which callers treat as a broken
/// precondition. Otherwise each list
/// is offered to the stream in order (one that does not fit is skipped, with
/// its commands), and the operations of the placed lists are returned.
pub fn prepare_frame(stream: &mut GeometryStream, textures: &TextureTable, frame: &Frame) -> (r:
    Result<Vec<DrawOp>, RenderError>)
    requires
        old(stream).wf(),
    ensures
        final(stream).wf(),
        r is Ok <==> commands_fit(frame.lists@) && textures_resolve(frame.lists@, textures@.dom()),
        r is Err ==> final(stream)@ == old(stream)@,
        r matches Err(RenderError::IndicesOverrun(i)) ==> i < frame.lists@.len() && elements_count(
            frame.lists@[i as int].commands@,
        ) > frame.lists@[i as int].indices@.len(),
        r matches Err(RenderError::UnknownTexture(id)) ==> commands_fit(frame.lists@)
            && !textures@.dom().contains(id) && names_texture(frame.lists@, id),
        r is Ok ==> r->Ok_0@ == frame_ops(
            frame.lists@,
            old(stream)@.indices.len() as int,
            old(stream)@.vertices.len() as int,
        ),
        r is Ok ==> final(stream)@.indices == old(stream)@.indices + frame_indices(
            frame.lists@,
            old(stream)@.indices.len() as int,
            old(stream)@.vertices.len() as int,
        ),
        r is Ok ==> final(stream)@.vertices == old(stream)@.vertices + frame_vertices(
            frame.lists@,
            old(stream)@.indices.len() as int,
            old(stream)@.vertices.len() as int,
        ),
{
    let lists = &frame.lists;
    match find_overrun(lists) {
        Some(i) => {
            return Err(RenderError::IndicesOverrun(i));
        },
        None => {},
    }
    match find_unknown_texture(lists, textures) {
        Some(id) => {
            return Err(RenderError::UnknownTexture(id));
        },
        None => {},
    }
    let offsets = place_lists(stream, lists);
    Ok(replay(lists, &offsets))
}

/// Total index and vertex counts of `lists`.
pub open spec fn totals(lists: Seq<DrawList>) -> (int, int)
    decreases lists.len(),
{
    if lists.len() == 0 {
        (0, 0)
    } else {
        let (a, b) = totals(lists.drop_last());
        (a + lists.last().indices@.len(), b + lists.last().vertices@.len())
    }
}

/// All indices of `lists`, one list after another.
pub open spec fn all_indices(lists: Seq<DrawList>) -> Seq<u16>
    decreases lists.len(),
{
    if lists.len() == 0 {
        Seq::empty()
    } else {
        all_indices(lists.drop_last()) + lists.last().indices@
    }
}

/// All vertices of `lists`, one list after another.
pub open spec fn all_vertices(lists: Seq<DrawList>) -> Seq<Vertex>
    decreases lists.len(),
{
    if lists.len() == 0 {
        Seq::empty()
    } else {
        all_vertices(lists.drop_last()) + lists.last().vertices@
    }
}

/// The totals of a prefix are at most those of the whole.
pub proof fn lemma_totals_prefix(lists: Seq<DrawList>, k: int)
    requires
        0 <= k <= lists.len(),
    ensures
        0 <= totals(lists.subrange(0, k)).0 <= totals(lists).0,
        0 <= totals(lists.subrange(0, k)).1 <= totals(lists).1,
    decreases lists.len(),
{
    if k == lists.len() {
        assert(lists.subrange(0, k) == lists);
        lemma_totals_nonneg(lists);
    } else {
        let rest = lists.drop_last();
        lemma_totals_prefix(rest, k);
        assert(rest.subrange(0, k) == lists.subrange(0, k));
    }
}

/// Totals are non-negative.
pub proof fn lemma_totals_nonneg(lists: Seq<DrawList>)
    ensures
        totals(lists).0 >= 0,
        totals(lists).1 >= 0,
    decreases lists.len(),
{
    if lists.len() > 0 {
        lemma_totals_nonneg(lists.drop_last());
    }
}

/// Offered to an empty stream, a frame that fits whole has every prefix of
/// lists placed whole: the stream's counts are the prefix's totals, and
/// every index and vertex is kept, in order.
pub proof fn lemma_prefix_fits(lists: Seq<DrawList>, k: int)
    requires
        0 <= k <= lists.len(),
        totals(lists).0 < INDEX_CAPACITY,
        totals(lists).1 < VERTEX_CAPACITY,
    ensures
        counts_after(lists.subrange(0, k), 0, 0) == totals(lists.subrange(0, k)),
        frame_indices(lists.subrange(0, k), 0, 0) == all_indices(lists.subrange(0, k)),
        frame_vertices(lists.subrange(0, k), 0, 0) == all_vertices(lists.subrange(0, k)),
    decreases k,
{
    if k > 0 {
        let pre = lists.subrange(0, k);
        assert(pre.drop_last() == lists.subrange(0, k - 1));
        lemma_prefix_fits(lists, k - 1);
        lemma_totals_prefix(lists, k);
    }
}

/// Within a frame that fits an empty stream whole, each list is placed at
/// the index and vertex counts of all lists before it, and a later list is
/// placed past every index and vertex of an earlier one: offsets grow
/// strictly past each list that has geometry.
pub proof fn lemma_offsets_cumulative(lists: Seq<DrawList>, i: int, j: int)
    requires
        totals(lists).0 < INDEX_CAPACITY,
        totals(lists).1 < VERTEX_CAPACITY,
        0 <= i < j < lists.len(),
    ensures
        placement(lists, i, 0, 0) == Some(
            (totals(lists.subrange(0, i)).0 as u64, totals(lists.subrange(0, i)).1 as u64),
        ),
        placement(lists, j, 0, 0) == Some(
            (totals(lists.subrange(0, j)).0 as u64, totals(lists.subrange(0, j)).1 as u64),
        ),
        totals(lists.subrange(0, i)).0 + lists[i].indices@.len() <= totals(
            lists.subrange(0, j),
        ).0,
        totals(lists.subrange(0, i)).1 + lists[i].vertices@.len() <= totals(
            lists.subrange(0, j),
        ).1,
{
    lemma_placed_at_totals(lists, i);
    lemma_placed_at_totals(lists, j);
    let upto = lists.subrange(0, j);
    lemma_totals_prefix(upto, i + 1);
    assert(upto.subrange(0, i + 1) == lists.subrange(0, i + 1));
    assert(lists.subrange(0, i + 1).drop_last() == lists.subrange(0, i));
}

/// Within a frame that fits an empty stream whole, list `k` is placed at
/// the totals of the lists before it.
pub proof fn lemma_placed_at_totals(lists: Seq<DrawList>, k: int)
    requires
        totals(lists).0 < INDEX_CAPACITY,
        totals(lists).1 < VERTEX_CAPACITY,
        0 <= k < lists.len(),
    ensures
        placement(lists, k, 0, 0) == Some(
            (totals(lists.subrange(0, k)).0 as u64, totals(lists.subrange(0, k)).1 as u64),
        ),
{
    lemma_prefix_fits(lists, k);
    lemma_totals_prefix(lists, k + 1);
    assert(lists.subrange(0, k + 1).drop_last() == lists.subrange(0, k));
}

/// Each list placed at the index and vertex totals of the lists before it.
pub open spec fn cumulative_offsets(lists: Seq<DrawList>) -> Seq<Option<(u64, u64)>> {
    Seq::new(
        lists.len(),
        |k: int|
            Some(
                (
                    totals(lists.subrange(0, k)).0 as u64,
                    totals(lists.subrange(0, k)).1 as u64,
                ),
            ),
    )
}

/// A frame that fits an empty stream whole is drawn with each list at the
/// cumulative counts of the lists before it: its element draws start at
/// the total index count of the earlier lists and use their total vertex
/// count as base vertex, in list order.
pub proof fn lemma_frame_ops_cumulative(lists: Seq<DrawList>)
    requires
        totals(lists).0 < INDEX_CAPACITY,
        totals(lists).1 < VERTEX_CAPACITY,
    ensures
        placements(lists, 0, 0) == cumulative_offsets(lists),
        frame_ops(lists, 0, 0) == replay_ops(lists, cumulative_offsets(lists)),
{
    assert forall|k: int| 0 <= k < lists.len() implies placements(lists, 0, 0)[k]
        == cumulative_offsets(lists)[k] by {
        lemma_placed_at_totals(lists, k);
    }
    assert(placements(lists, 0, 0) =~= cumulative_offsets(lists));
}

/// A stream emptied by a flush carries nothing into the next frame: what it
/// holds after the frame's lists are offered is the geometry of the lists it
/// took, and, when the frame fits whole, all of the frame's geometry in list
/// order.
pub proof fn lemma_fresh_frame(flushed: StreamView, lists: Seq<DrawList>)
    requires
        flushed.indices.len() == 0,
        flushed.vertices.len() == 0,
    ensures
        flushed.indices + frame_indices(
            lists,
            flushed.indices.len() as int,
            flushed.vertices.len() as int,
        ) == frame_indices(lists, 0, 0),
        flushed.vertices + frame_vertices(
            lists,
            flushed.indices.len() as int,
            flushed.vertices.len() as int,
        ) == frame_vertices(lists, 0, 0),
        totals(lists).0 < INDEX_CAPACITY && totals(lists).1 < VERTEX_CAPACITY ==> frame_indices(
            lists,
            0,
            0,
        ) == all_indices(lists) && frame_vertices(lists, 0, 0) == all_vertices(lists),
{
    assert(flushed.indices + frame_indices(lists, 0, 0) == frame_indices(lists, 0, 0));
    assert(flushed.vertices + frame_vertices(lists, 0, 0) == frame_vertices(lists, 0, 0));
    if totals(lists).0 < INDEX_CAPACITY && totals(lists).1 < VERTEX_CAPACITY {
        lemma_prefix_fits(lists, lists.len() as int);
        assert(lists.subrange(0, lists.len() as int) == lists);
    }
}

} // verus!
