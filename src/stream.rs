use vstd::prelude::*;

verus! {

/// Number of indices the stream can hold; a frame may use all but one slot.
pub const INDEX_CAPACITY: u64 = 65536;

/// Number of vertices the stream can hold; a frame may use all but one slot.
pub const VERTEX_CAPACITY: u64 = 65536;

/// Bytes of one index in the GPU index buffer.
pub const INDEX_SIZE: u64 = 2;

/// Bytes of one vertex in the GPU vertex buffer: position, texture
/// coordinate and packed colour, as five 32-bit words.
pub const VERTEX_SIZE: u64 = 20;

/// Byte offset of the position within a vertex of the vertex buffer.
pub const POSITION_OFFSET: u64 = 0;

/// Byte offset of the texture coordinate within a vertex of the vertex buffer.
pub const UV_OFFSET: u64 = 8;

/// Byte offset of the packed colour within a vertex of the vertex buffer.
pub const COLOR_OFFSET: u64 = 16;

/// Size in bytes of the GPU index buffer that a flushed stream fits in.
pub const INDEX_BUFFER_SIZE: u64 = 131072;

/// Size in bytes of the GPU vertex buffer that a flushed stream fits in.
pub const VERTEX_BUFFER_SIZE: u64 = 1310720;

/// One GUI vertex. The four coordinates are the bit patterns of 32-bit floats
/// (position x, y; texture u, v); `color` is the RGBA colour packed into a
/// word, red in the least significant byte.
#[derive(Clone, Copy, Debug, PartialEq, Eq, Structural)]
pub struct Vertex {
    pub x: u32,
    pub y: u32,
    pub u: u32,
    pub v: u32,
    pub color: u32,
}

/// The two bytes of an index, least significant first.
pub open spec fn u16_le(x: u16) -> Seq<u8> {
    seq![(x % 256) as u8, (x / 256) as u8]
}

/// The four bytes of a word, least significant first.
pub open spec fn u32_le(w: u32) -> Seq<u8> {
    seq![(w % 256) as u8, (w / 256 % 256) as u8, (w / 65536 % 256) as u8, (w / 16777216) as u8]
}

impl Vertex {
    /// The vertex as it lies in the vertex buffer: its five words in field
    /// order, each least significant byte first.
    pub open spec fn bytes(self) -> Seq<u8> {
        u32_le(self.x) + u32_le(self.y) + u32_le(self.u) + u32_le(self.v) + u32_le(self.color)
    }
}

/// The bytes of each index, one index after another.
pub open spec fn index_bytes(s: Seq<u16>) -> Seq<u8>
    decreases s.len(),
{
    if s.len() == 0 {
        Seq::empty()
    } else {
        index_bytes(s.drop_last()) + u16_le(s.last())
    }
}

/// The bytes of each vertex, one vertex after another.
pub open spec fn vertex_bytes(vs: Seq<Vertex>) -> Seq<u8>
    decreases vs.len(),
{
    if vs.len() == 0 {
        Seq::empty()
    } else {
        vertex_bytes(vs.drop_last()) + vs.last().bytes()
    }
}

/// Number of zero bytes that bring a transfer of `n` bytes to a multiple of
/// four.
pub open spec fn padding(n: int) -> int {
    (4 - n % 4) % 4
}

/// Byte length of a transfer of `n` bytes once padded: the next multiple of
/// four at or above `n`.
pub open spec fn padded_len(n: int) -> int {
    n + padding(n)
}

/// `k` zero bytes.
pub open spec fn zeros(k: int) -> Seq<u8> {
    Seq::new(k as nat, |i: int| 0u8)
}

/// Index `i` occupies bytes `2i .. 2i + 2` of the index bytes.
pub proof fn lemma_index_bytes_at(s: Seq<u16>, i: int)
    requires
        0 <= i < s.len(),
    ensures
        index_bytes(s).len() == INDEX_SIZE * s.len(),
        index_bytes(s).subrange(INDEX_SIZE * i, INDEX_SIZE * i + INDEX_SIZE) == u16_le(s[i]),
    decreases s.len(),
{
    let rest = s.drop_last();
    lemma_index_bytes_len(rest);
    if i < s.len() - 1 {
        lemma_index_bytes_at(rest, i);
        assert(index_bytes(s).subrange(2 * i, 2 * i + 2) == index_bytes(rest).subrange(
            2 * i,
            2 * i + 2,
        ));
    } else {
        assert(index_bytes(s).subrange(2 * i, 2 * i + 2) == u16_le(s.last()));
    }
}

/// Two bytes per index.
pub proof fn lemma_index_bytes_len(s: Seq<u16>)
    ensures
        index_bytes(s).len() == INDEX_SIZE * s.len(),
    decreases s.len(),
{
    if s.len() > 0 {
        lemma_index_bytes_len(s.drop_last());
    }
}

/// Vertex `i` occupies bytes `20i .. 20i + 20` of the vertex bytes.
pub proof fn lemma_vertex_bytes_at(vs: Seq<Vertex>, i: int)
    requires
        0 <= i < vs.len(),
    ensures
        vertex_bytes(vs).len() == VERTEX_SIZE * vs.len(),
        vertex_bytes(vs).subrange(VERTEX_SIZE * i, VERTEX_SIZE * i + VERTEX_SIZE) == vs[i].bytes(),
    decreases vs.len(),
{
    let rest = vs.drop_last();
    lemma_vertex_bytes_len(rest);
    if i < vs.len() - 1 {
        lemma_vertex_bytes_at(rest, i);
        assert(vertex_bytes(vs).subrange(20 * i, 20 * i + 20) == vertex_bytes(rest).subrange(
            20 * i,
            20 * i + 20,
        ));
    } else {
        assert(vertex_bytes(vs).subrange(20 * i, 20 * i + 20) == vs.last().bytes());
    }
}

/// Twenty bytes per vertex.
pub proof fn lemma_vertex_bytes_len(vs: Seq<Vertex>)
    ensures
        vertex_bytes(vs).len() == VERTEX_SIZE * vs.len(),
    decreases vs.len(),
{
    if vs.len() > 0 {
        lemma_vertex_bytes_len(vs.drop_last());
    }
}

/// The layout constants describe a vertex's bytes: `VERTEX_SIZE` bytes in
/// all, the position's two words at `POSITION_OFFSET`, the texture
/// coordinate's at `UV_OFFSET` and the colour word at `COLOR_OFFSET`.
pub proof fn lemma_vertex_layout(v: Vertex)
    ensures
        v.bytes().len() == VERTEX_SIZE,
        v.bytes().subrange(POSITION_OFFSET as int, POSITION_OFFSET + 8) == u32_le(v.x) + u32_le(
            v.y,
        ),
        v.bytes().subrange(UV_OFFSET as int, UV_OFFSET + 8) == u32_le(v.u) + u32_le(v.v),
        v.bytes().subrange(COLOR_OFFSET as int, COLOR_OFFSET + 4) == u32_le(v.color),
{
    assert(v.bytes().subrange(0, 8) == u32_le(v.x) + u32_le(v.y));
    assert(v.bytes().subrange(8, 16) == u32_le(v.u) + u32_le(v.v));
    assert(v.bytes().subrange(16, 20) == u32_le(v.color));
}

/// Whether `n` more elements fit beside `used` in a stream of `cap` slots.
pub open spec fn fits(used: int, n: int, cap: int) -> bool {
    used + n < cap
}

/// What a stream holds: the indices and vertices appended since the last flush.
pub struct StreamView {
    pub indices: Seq<u16>,
    pub vertices: Seq<Vertex>,
}

/// Per-frame staging of index and vertex data, bounded by fixed capacities.
pub struct GeometryStream {
    indices: Vec<u16>,
    vertices: Vec<Vertex>,
}

impl View for GeometryStream {
    type V = StreamView;

    closed spec fn view(&self) -> StreamView {
        StreamView { indices: self.indices@, vertices: self.vertices@ }
    }
}

impl GeometryStream {
    /// The stream never holds capacity or more elements of either kind.
    pub open spec fn wf(&self) -> bool {
        &&& self@.indices.len() < INDEX_CAPACITY
        &&& self@.vertices.len() < VERTEX_CAPACITY
    }

    /// An empty stream, with room for its full capacity allocated up front.
    pub fn new() -> (r: GeometryStream)
        ensures
            r.wf(),
            r@.indices.len() == 0,
            r@.vertices.len() == 0,
    {
        GeometryStream {
            indices: Vec::with_capacity(INDEX_CAPACITY as usize),
            vertices: Vec::with_capacity(VERTEX_CAPACITY as usize),
        }
    }

    /// Number of indices appended since the last flush.
    pub fn index_count(&self) -> (r: usize)
        ensures
            r == self@.indices.len(),
    {
        self.indices.len()
    }

    /// Number of vertices appended since the last flush.
    pub fn vertex_count(&self) -> (r: usize)
        ensures
            r == self@.vertices.len(),
    {
        self.vertices.len()
    }

    /// Appends `indices` if they fit, returning the offset (in indices) at
    /// which they were placed; otherwise leaves the stream as it was.
    pub fn append_indices(&mut self, indices: &[u16]) -> (r: Option<u64>)
        requires
            old(self).wf(),
        ensures
            final(self).wf(),
            final(self)@.vertices == old(self)@.vertices,
            r is Some <==> fits(
                old(self)@.indices.len() as int,
                indices@.len() as int,
                INDEX_CAPACITY as int,
            ),
            r is Some ==> r->0 == old(self)@.indices.len() && final(self)@.indices
                == old(self)@.indices + indices@,
            r is None ==> final(self)@ == old(self)@,
    {
        let offset = self.indices.len();
        if indices.len() < INDEX_CAPACITY as usize - offset {
            let mut i: usize = 0;
            while i < indices.len()
                invariant
                    0 <= i <= indices@.len(),
                    offset == old(self)@.indices.len(),
                    offset + indices@.len() < INDEX_CAPACITY,
                    self@.vertices == old(self)@.vertices,
                    self@.indices == old(self)@.indices + indices@.subrange(0, i as int),
                decreases indices@.len() - i,
            {
                self.indices.push(indices[i]);
                i = i + 1;
                proof {
                    assert(indices@.subrange(0, i as int) == indices@.subrange(0, i - 1)
                        + seq![indices@[i - 1]]);
                }
            }
            proof {
                assert(indices@.subrange(0, indices@.len() as int) == indices@);
            }
            Some(offset as u64)
        } else {
            None
        }
    }

    /// Appends `vertices` if they fit, returning the offset (in vertices) at
    /// which they were placed; otherwise leaves the stream as it was.
    pub fn append_vertices(&mut self, vertices: &[Vertex]) -> (r: Option<u64>)
        requires
            old(self).wf(),
        ensures
            final(self).wf(),
            final(self)@.indices == old(self)@.indices,
            r is Some <==> fits(
                old(self)@.vertices.len() as int,
                vertices@.len() as int,
                VERTEX_CAPACITY as int,
            ),
            r is Some ==> r->0 == old(self)@.vertices.len() && final(self)@.vertices
                == old(self)@.vertices + vertices@,
            r is None ==> final(self)@ == old(self)@,
    {
        let offset = self.vertices.len();
        if vertices.len() < VERTEX_CAPACITY as usize - offset {
            let mut i: usize = 0;
            while i < vertices.len()
                invariant
                    0 <= i <= vertices@.len(),
                    offset == old(self)@.vertices.len(),
                    offset + vertices@.len() < VERTEX_CAPACITY,
                    self@.indices == old(self)@.indices,
                    self@.vertices == old(self)@.vertices + vertices@.subrange(0, i as int),
                decreases vertices@.len() - i,
            {
                self.vertices.push(vertices[i]);
                i = i + 1;
                proof {
                    assert(vertices@.subrange(0, i as int) == vertices@.subrange(0, i - 1)
                        + seq![vertices@[i - 1]]);
                }
            }
            proof {
                assert(vertices@.subrange(0, vertices@.len() as int) == vertices@);
            }
            Some(offset as u64)
        } else {
            None
        }
    }

    /// Appends one draw list's geometry: both arrays, or neither when either
    /// would reach its capacity. Returns the (index offset, vertex offset) at
    /// which the data was placed.
    pub fn append(&mut self, vertices: &[Vertex], indices: &[u16]) -> (r: Option<(u64, u64)>)
        requires
            old(self).wf(),
        ensures
            final(self).wf(),
            r is Some <==> fits(
                old(self)@.indices.len() as int,
                indices@.len() as int,
                INDEX_CAPACITY as int,
            ) && fits(
                old(self)@.vertices.len() as int,
                vertices@.len() as int,
                VERTEX_CAPACITY as int,
            ),
            r is Some ==> r->0 == (
                old(self)@.indices.len() as u64,
                old(self)@.vertices.len() as u64,
            ),
            r is Some ==> final(self)@ == (StreamView {
                indices: old(self)@.indices + indices@,
                vertices: old(self)@.vertices + vertices@,
            }),
            r is None ==> final(self)@ == old(self)@,
    {
        if indices.len() >= INDEX_CAPACITY as usize - self.indices.len()
            || vertices.len() >= VERTEX_CAPACITY as usize - self.vertices.len() {
            return None;
        }
        let index_offset = self.append_indices(indices);
        let vertex_offset = self.append_vertices(vertices);
        match (index_offset, vertex_offset) {
            (Some(i), Some(v)) => Some((i, v)),
            _ => None,
        }
    }

    /// Writes the stream's contents as GPU-ready bytes into `index_out` and
    /// `vertex_out`, replacing what they held (their allocations are reused):
    /// each index and each vertex word least significant byte first, in the
    /// order appended, then zeros up to the next multiple of four. Empties
    /// the stream for the next frame.
    pub fn flush(&mut self, index_out: &mut Vec<u8>, vertex_out: &mut Vec<u8>)
        requires
            old(self).wf(),
        ensures
            final(self).wf(),
            final(self)@.indices.len() == 0,
            final(self)@.vertices.len() == 0,
            final(index_out)@ == index_bytes(old(self)@.indices) + zeros(
                padding(INDEX_SIZE * old(self)@.indices.len()),
            ),
            final(vertex_out)@ == vertex_bytes(old(self)@.vertices) + zeros(
                padding(VERTEX_SIZE * old(self)@.vertices.len()),
            ),
            final(index_out)@.len() == padded_len(INDEX_SIZE * old(self)@.indices.len()),
            final(vertex_out)@.len() == padded_len(VERTEX_SIZE * old(self)@.vertices.len()),
            final(index_out)@.len() <= INDEX_BUFFER_SIZE,
            final(vertex_out)@.len() <= VERTEX_BUFFER_SIZE,
    {
        index_out.clear();
        encode_indices(self.indices.as_slice(), index_out);
        pad_to_word(index_out);
        vertex_out.clear();
        encode_vertices(self.vertices.as_slice(), vertex_out);
        pad_to_word(vertex_out);
        self.indices.clear();
        self.vertices.clear();
    }
}

/// Appends the four bytes of `w`, least significant first.
fn push_word(bytes: &mut Vec<u8>, w: u32)
    ensures
        final(bytes)@ == old(bytes)@ + u32_le(w),
{
    bytes.push((w % 256) as u8);
    bytes.push((w / 256 % 256) as u8);
    bytes.push((w / 65536 % 256) as u8);
    bytes.push((w / 16777216) as u8);
    assert(final(bytes)@ =~= old(bytes)@ + u32_le(w));
}

/// Appends the bytes of `indices` to `out`, each index least significant
/// byte first.
pub fn encode_indices(indices: &[u16], out: &mut Vec<u8>)
    requires
        old(out)@.len() + INDEX_SIZE * indices@.len() <= usize::MAX,
    ensures
        final(out)@ == old(out)@ + index_bytes(indices@),
        final(out)@.len() == old(out)@.len() + INDEX_SIZE * indices@.len(),
{
    let ghost start = out@;
    let mut i: usize = 0;
    while i < indices.len()
        invariant
            0 <= i <= indices@.len(),
            start == old(out)@,
            out@ == start + index_bytes(indices@.subrange(0, i as int)),
        decreases indices@.len() - i,
    {
        let x = indices[i];
        let ghost before = out@;
        out.push((x % 256) as u8);
        out.push((x / 256) as u8);
        proof {
            let next = indices@.subrange(0, i + 1);
            assert(next.drop_last() == indices@.subrange(0, i as int));
            assert(next.last() == x);
            assert(out@ =~= start + index_bytes(next));
        }
        i = i + 1;
    }
    proof {
        assert(indices@.subrange(0, indices@.len() as int) == indices@);
        lemma_index_bytes_len(indices@);
    }
}

/// Appends the bytes of `vertices` to `out`, one vertex after another.
pub fn encode_vertices(vertices: &[Vertex], out: &mut Vec<u8>)
    ensures
        final(out)@ == old(out)@ + vertex_bytes(vertices@),
        final(out)@.len() == old(out)@.len() + VERTEX_SIZE * vertices@.len(),
{
    let ghost start = out@;
    let mut i: usize = 0;
    while i < vertices.len()
        invariant
            0 <= i <= vertices@.len(),
            start == old(out)@,
            out@ == start + vertex_bytes(vertices@.subrange(0, i as int)),
        decreases vertices@.len() - i,
    {
        let vertex = vertices[i];
        let ghost before = out@;
        push_word(out, vertex.x);
        push_word(out, vertex.y);
        push_word(out, vertex.u);
        push_word(out, vertex.v);
        push_word(out, vertex.color);
        proof {
            let next = vertices@.subrange(0, i + 1);
            assert(next.drop_last() == vertices@.subrange(0, i as int));
            assert(next.last() == vertex);
            assert(out@ =~= start + vertex_bytes(next));
        }
        i = i + 1;
    }
    proof {
        assert(vertices@.subrange(0, vertices@.len() as int) == vertices@);
        lemma_vertex_bytes_len(vertices@);
    }
}

/// Pads `bytes` with zeros up to the next multiple of four at or above its
/// length.
pub fn pad_to_word(bytes: &mut Vec<u8>)
    requires
        old(bytes)@.len() + 3 <= usize::MAX,
    ensures
        final(bytes)@ == old(bytes)@ + zeros(padding(old(bytes)@.len() as int)),
        final(bytes)@.len() == padded_len(old(bytes)@.len() as int),
{
    let n = bytes.len();
    let extra: usize = (4 - n % 4) % 4;
    let mut k: usize = 0;
    while k < extra
        invariant
            0 <= k <= extra <= 3,
            extra == padding(n as int),
            n == old(bytes)@.len(),
            n + 3 <= usize::MAX,
            bytes@ == old(bytes)@ + zeros(k as int),
        decreases extra - k,
    {
        bytes.push(0u8);
        k = k + 1;
        assert(bytes@ =~= old(bytes)@ + zeros(k as int));
    }
}

} // verus!
