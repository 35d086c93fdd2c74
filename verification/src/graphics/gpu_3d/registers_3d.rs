use vstd::prelude::*;
use crate::graphics::gpu_3d::matrix_vec::Matrix;
use crate::graphics::gpu_3d::gx_cmd_fifo::{gx_param_count, param_count};

verus! {

/// Ranges of the fields that the geometry commands take from a parameter
/// word.
pub proof fn lemma_word_fields(p: u32)
    by (bit_vector)
    ensures
        p & 3 <= 3,
        p >> 30u32 <= 3,
        p & 0x1F < 32,
        p & 0x3F < 64,
        (p >> 8u32) & 0x1F < 32,
        p & 0x7F < 128,
        p & 0x3FF < 1024,
        (p >> 10u32) & 0x3FF < 1024,
        (p >> 20u32) & 0x3FF < 1024,
        (p >> 0u32) & 0x3FF == p & 0x3FF,
        p < 128 ==> p & 0x7F == p && p >> 8u32 == 0,
{
}

/// Which matrices the matrix commands act on.
#[derive(Clone, Copy, Debug, PartialEq, Eq, Structural)]
pub enum MtxMode {
    Projection,
    ModelView,
    ModelViewVec,
    Texture,
}

impl MtxMode {
    /// The mode numbered `value`.
    pub fn from_bits(value: u8) -> (r: MtxMode)
        requires
            value <= 3,
        ensures
            value == 0 ==> r == MtxMode::Projection,
            value == 1 ==> r == MtxMode::ModelView,
            value == 2 ==> r == MtxMode::ModelViewVec,
            value == 3 ==> r == MtxMode::Texture,
    {
        if value == 0 {
            MtxMode::Projection
        } else if value == 1 {
            MtxMode::ModelView
        } else if value == 2 {
            MtxMode::ModelViewVec
        } else {
            MtxMode::Texture
        }
    }
}

/// The position and direction matrix stack level of a geometry status word
/// (bits 8 to 12).
pub open spec fn pos_vec_level(stat: u32) -> u32 {
    (stat >> 8u32) & 0x1F
}

/// The projection matrix stack level of a geometry status word (bit 13).
pub open spec fn proj_level(stat: u32) -> u32 {
    (stat >> 13u32) & 1
}

/// `stat` with position and direction stack level `lvl`.
pub open spec fn with_pos_vec_level(stat: u32, lvl: u32) -> u32 {
    (stat & !0x1F00u32) | ((lvl & 0x1F) << 8u32)
}

/// `stat` with projection stack level `lvl`.
pub open spec fn with_proj_level(stat: u32, lvl: u32) -> u32 {
    (stat & !0x2000u32) | ((lvl & 1) << 13u32)
}

/// `stat` with the stack error flag set.
pub open spec fn with_stack_error(stat: u32) -> u32 {
    stat | 0x8000
}

/// The identity matrix (1.0 is 0x1000 in 20.12 fixed point).
pub open spec fn identity() -> Seq<i32> {
    Seq::new(16, |k: int| if k % 5 == 0 { 0x1000i32 } else { 0i32 })
}

/// The matrix of a 4x3 load: three columns from the parameters, row by row,
/// and 0, 0, 0, 1.0 in the last column.
pub open spec fn load43_matrix(params: Seq<u32>) -> Seq<i32> {
    Seq::new(
        16,
        |k: int|
            if k % 4 == 3 {
                if k == 15 {
                    0x1000i32
                } else {
                    0i32
                }
            } else {
                params[3 * (k / 4) + k % 4] as i32
            },
    )
}

/// The matrix of a 4x4 load: the parameters, row by row.
pub open spec fn load44_matrix(params: Seq<u32>) -> Seq<i32> {
    Seq::new(16, |k: int| params[k] as i32)
}

/// The distance of a pop (the low six bits, signed).
pub open spec fn pop_offset(p: u32) -> int {
    let v = (p & 0x3F) as int;
    if v >= 32 {
        v - 64
    } else {
        v
    }
}

/// The current matrices and their stacks.
pub struct Matrices {
    pub proj: Matrix,
    pub proj_stack: Matrix,
    pub coord: Matrix,
    pub coord_stack: [Matrix; 32],
    pub dir: Matrix,
    pub dir_stack: [Matrix; 32],
    pub tex: Matrix,
    pub tex_stack: Matrix,
}

fn identity_matrix() -> (r: Matrix)
    ensures
        r@ == identity(),
{
    let r: Matrix = [0x1000, 0, 0, 0, 0, 0x1000, 0, 0, 0, 0, 0x1000, 0, 0, 0, 0, 0x1000];
    assert(r@ =~= identity());
    r
}

fn load43(params: &[u32; 32]) -> (r: Matrix)
    ensures
        r@ == load43_matrix(params@),
{
    let mut m: Matrix = [0i32; 16];
    let mut i: usize = 0;
    while i < 4
        invariant
            i <= 4,
            m@.len() == 16,
            forall|k: int| 0 <= k < 4 * i && k % 4 != 3 ==> m@[k] == params@[3 * (k / 4) + k % 4] as i32,
        decreases 4 - i,
    {
        m[i * 4] = params[i * 3] as i32;
        m[i * 4 + 1] = params[i * 3 + 1] as i32;
        m[i * 4 + 2] = params[i * 3 + 2] as i32;
        i = i + 1;
    }
    m[3] = 0;
    m[7] = 0;
    m[11] = 0;
    m[15] = 0x1000;
    assert(m@ =~= load43_matrix(params@));
    m
}

fn load44(params: &[u32; 32]) -> (r: Matrix)
    ensures
        r@ == load44_matrix(params@),
{
    let mut m: Matrix = [0i32; 16];
    let mut i: usize = 0;
    while i < 16
        invariant
            i <= 16,
            m@.len() == 16,
            forall|k: int| 0 <= k < i ==> m@[k] == params@[k] as i32,
        decreases 16 - i,
    {
        m[i] = params[i] as i32;
        i = i + 1;
    }
    assert(m@ =~= load44_matrix(params@));
    m
}

/// What a push does to the matrix state.
pub open spec fn mtx_pushed(o_r: Gpu3DRegisters, f_r: Gpu3DRegisters) -> bool {
    &&& f_r.mtx_mode == o_r.mtx_mode
    &&& f_r.queue == o_r.queue
    &&& f_r.geometry == o_r.geometry
    &&& f_r.clip_mtx_dirty == o_r.clip_mtx_dirty
    &&& f_r.tex_mtx_push == o_r.tex_mtx_push
    &&& ({
        let o = o_r.matrices;
        let f = f_r.matrices;
        let stat = o_r.gx_stat;
        match o_r.mtx_mode {
            MtxMode::Projection => if proj_level(stat) == 0 {
                &&& f == (Matrices { proj_stack: o.proj, ..o })
                &&& f_r.gx_stat == with_proj_level(stat, 1)
            } else {
                &&& f == o
                &&& f_r.gx_stat == with_stack_error(stat)
            },
            MtxMode::Texture => {
                &&& f == (Matrices { tex_stack: o.tex, ..o })
                &&& f_r.gx_stat == stat
            },
            _ => {
                let ptr = pos_vec_level(stat);
                let stat1 = if ptr >= 30 {
                    with_stack_error(stat)
                } else {
                    stat
                };
                if ptr < 31 {
                    &&& f.coord_stack@ == o.coord_stack@.update(ptr as int, o.coord)
                    &&& f.dir_stack@ == o.dir_stack@.update(ptr as int, o.dir)
                    &&& f == (Matrices { coord_stack: f.coord_stack, dir_stack: f.dir_stack, ..o })
                    &&& f_r.gx_stat == with_pos_vec_level(stat1, (ptr + 1) as u32)
                } else {
                    &&& f == o
                    &&& f_r.gx_stat == stat1
                }
            },
        }
    })
}

/// What a pop with parameters `params` does to the matrix state.
pub open spec fn mtx_popped(o_r: Gpu3DRegisters, params: Seq<u32>, f_r: Gpu3DRegisters) -> bool {
    &&& f_r.mtx_mode == o_r.mtx_mode
    &&& f_r.queue == o_r.queue
    &&& f_r.geometry == o_r.geometry
    &&& ({
        let o = o_r.matrices;
        let f = f_r.matrices;
        let stat = o_r.gx_stat;
        match o_r.mtx_mode {
            MtxMode::Projection => if proj_level(stat) == 1 {
                &&& f == (Matrices { proj: o.proj_stack, ..o })
                &&& f_r.gx_stat == with_proj_level(stat, 0)
                &&& f_r.clip_mtx_dirty
                &&& f_r.tex_mtx_push == o_r.tex_mtx_push
            } else {
                &&& f == o
                &&& f_r.gx_stat == with_stack_error(stat)
                &&& f_r.clip_mtx_dirty == o_r.clip_mtx_dirty
                &&& f_r.tex_mtx_push == o_r.tex_mtx_push
            },
            MtxMode::Texture => {
                &&& f == (Matrices { tex: o.tex_stack, ..o })
                &&& f_r.gx_stat == stat
                &&& f_r.clip_mtx_dirty == o_r.clip_mtx_dirty
                &&& f_r.tex_mtx_push
            },
            _ => {
                let d = pos_vec_level(stat) - pop_offset(params[0]);
                let ptr = if d < 0 {
                    d + 256
                } else {
                    d
                };
                let stat1 = if ptr >= 30 {
                    with_stack_error(stat)
                } else {
                    stat
                };
                &&& f_r.tex_mtx_push == o_r.tex_mtx_push
                &&& if ptr < 31 {
                    &&& f == (Matrices { coord: o.coord_stack@[ptr], dir: o.dir_stack@[ptr], ..o })
                    &&& f_r.gx_stat == with_pos_vec_level(stat1, ptr as u32)
                    &&& f_r.clip_mtx_dirty
                } else {
                    &&& f == o
                    &&& f_r.gx_stat == stat1
                    &&& f_r.clip_mtx_dirty == o_r.clip_mtx_dirty
                }
            },
        }
    })
}

/// Polygons the engine keeps per frame at most.
pub const POLYGON_LIMIT: usize = 8192;

/// How the vertices of a list form polygons.
#[derive(Clone, Copy, Debug, PartialEq, Eq, Structural)]
pub enum PrimitiveType {
    SeparateTriangles,
    SeparateQuadliterals,
    TriangleStrips,
    QuadliteralStrips,
}

/// Vertices of one polygon of each primitive type.
pub open spec fn vertex_count_of(t: PrimitiveType) -> u8 {
    match t {
        PrimitiveType::SeparateTriangles => 3,
        PrimitiveType::SeparateQuadliterals => 4,
        PrimitiveType::TriangleStrips => 3,
        PrimitiveType::QuadliteralStrips => 4,
    }
}

/// The primitive type numbered `v` (0 to 3).
pub open spec fn primitive_of(v: u32) -> PrimitiveType {
    if v == 0 {
        PrimitiveType::SeparateTriangles
    } else if v == 1 {
        PrimitiveType::SeparateQuadliterals
    } else if v == 2 {
        PrimitiveType::TriangleStrips
    } else {
        PrimitiveType::QuadliteralStrips
    }
}

impl PrimitiveType {
    /// Vertices of one polygon.
    pub fn vertex_count(self) -> (r: u8)
        ensures
            r == vertex_count_of(self),
    {
        match self {
            PrimitiveType::SeparateTriangles => 3,
            PrimitiveType::SeparateQuadliterals => 4,
            PrimitiveType::TriangleStrips => 3,
            PrimitiveType::QuadliteralStrips => 4,
        }
    }

    /// The type numbered `value`.
    pub fn from_bits(value: u8) -> (r: PrimitiveType)
        requires
            value <= 3,
        ensures
            r == primitive_of(value as u32),
    {
        if value == 0 {
            PrimitiveType::SeparateTriangles
        } else if value == 1 {
            PrimitiveType::SeparateQuadliterals
        } else if value == 2 {
            PrimitiveType::TriangleStrips
        } else {
            PrimitiveType::QuadliteralStrips
        }
    }
}

/// How texture coordinates of a vertex are transformed.
#[derive(Clone, Copy, Debug, PartialEq, Eq, Structural)]
pub enum TextureCoordTransMode {
    NoTransform,
    TexCoord,
    Normal,
    Vertex,
}

/// The transformation mode numbered `v` (0 to 3).
pub open spec fn trans_mode_of(v: u32) -> TextureCoordTransMode {
    if v == 0 {
        TextureCoordTransMode::NoTransform
    } else if v == 1 {
        TextureCoordTransMode::TexCoord
    } else if v == 2 {
        TextureCoordTransMode::Normal
    } else {
        TextureCoordTransMode::Vertex
    }
}

impl TextureCoordTransMode {
    /// The mode numbered `value`.
    pub fn from_bits(value: u8) -> (r: TextureCoordTransMode)
        requires
            value <= 3,
        ensures
            r == trans_mode_of(value as u32),
    {
        if value == 0 {
            TextureCoordTransMode::NoTransform
        } else if value == 1 {
            TextureCoordTransMode::TexCoord
        } else if value == 2 {
            TextureCoordTransMode::Normal
        } else {
            TextureCoordTransMode::Vertex
        }
    }
}

/// The vertex being built: coordinates, texture coordinates, color, how
/// its texture coordinates are transformed, and which texture and clip
/// matrices it uses.
#[derive(Clone, Copy)]
pub struct Vertex {
    pub coords: [i32; 4],
    pub tex_coords: [i16; 2],
    pub color: u32,
    pub tex_coord_trans_mode: TextureCoordTransMode,
    pub tex_matrix_index: u16,
    pub clip_matrix_index: u16,
}

/// A polygon: its normal, attribute, texture and palette words, primitive
/// type, first vertex and viewport.
#[derive(Clone, Copy)]
pub struct Polygon {
    pub normal: [i16; 3],
    pub attr: u32,
    pub tex_image_param: u32,
    pub palette_addr: u16,
    pub polygon_type: PrimitiveType,
    pub vertices_index: u16,
    pub viewport: u32,
}

/// The viewport word after reset: x2 is 256 truncated to a byte, y2 192.
pub const DEFAULT_VIEWPORT: u32 = 0xC000_0000;

/// Whether `p` has every field zero, the default viewport and separate
/// triangles.
pub open spec fn is_blank_polygon(p: Polygon) -> bool {
    &&& p.normal@ == seq![0i16, 0, 0]
    &&& p.attr == 0
    &&& p.tex_image_param == 0
    &&& p.palette_addr == 0
    &&& p.polygon_type == PrimitiveType::SeparateTriangles
    &&& p.vertices_index == 0
    &&& p.viewport == DEFAULT_VIEWPORT
}

/// The command queue as the CPU fills it and the engine runs it: command
/// words (the command number, and its parameter count from bit 8 on) each
/// followed by its parameters, the parameters still due for the command
/// being written, the rest of the packed command word being unpacked, the
/// FIFO length the status reports (in words, plus four), how far the engine
/// has run, and the number of queued test commands.
pub struct GxQueue {
    pub cmd_fifo: Vec<u32>,
    pub cmd_remaining_params: u8,
    pub last_cmd: u32,
    pub cmd_fifo_len: u16,
    pub processing_offset: usize,
    pub test_queue: u8,
}

/// The mathematical state of a command queue.
pub ghost struct GxQueueView {
    pub fifo: Seq<u32>,
    pub remaining: u8,
    pub last: u32,
    pub len: int,
    pub offset: int,
    pub tests: int,
}

impl GxQueue {
    pub open spec fn view(&self) -> GxQueueView {
        GxQueueView {
            fifo: self.cmd_fifo@,
            remaining: self.cmd_remaining_params,
            last: self.last_cmd,
            len: self.cmd_fifo_len as int,
            offset: self.processing_offset as int,
            tests: self.test_queue as int,
        }
    }
}

/// The command word queued for command `cmd`.
pub open spec fn cmd_word(cmd: u8) -> u32 {
    (cmd as u32) | ((gx_param_count(cmd) as u32) << 8u32)
}

/// `q` after command `cmd` starts: its word is queued and its parameters
/// are due; a command without parameters counts one word, a test command
/// joins the tests.
pub open spec fn gx_open(q: GxQueueView, cmd: u8) -> GxQueueView {
    let pc = gx_param_count(cmd);
    GxQueueView {
        fifo: q.fifo.push(cmd_word(cmd)),
        remaining: pc,
        len: q.len + if pc == 0 {
            1int
        } else {
            0int
        },
        tests: q.tests + if 0x70 <= cmd <= 0x72 {
            1int
        } else {
            0int
        },
        ..q
    }
}

/// Bytes of a packed command word that are left, counting up to its
/// highest nonzero byte.
pub open spec fn bytes_left(x: u32) -> int {
    if x == 0 {
        0
    } else if x >> 8u32 == 0 {
        1
    } else if x >> 16u32 == 0 {
        2
    } else if x >> 24u32 == 0 {
        3
    } else {
        4
    }
}

pub proof fn lemma_bytes_left(x: u32)
    ensures
        0 <= bytes_left(x) <= 4,
        x != 0 ==> bytes_left(x >> 8u32) == bytes_left(x) - 1,
        x != 0 ==> bytes_left(x) >= 1,
        x >> 8u32 != 0 ==> x != 0,
{
    let y = x >> 8u32;
    assert(x != 0 ==> ((x >> 8u32 == 0 && y == 0) || (x >> 8u32 != 0 && x >> 16u32 == 0 && y != 0 && y
        >> 8u32 == 0) || (x >> 8u32 != 0 && x >> 16u32 != 0 && x >> 24u32 == 0 && y != 0 && y >> 8u32
        != 0 && y >> 16u32 == 0) || (x >> 8u32 != 0 && x >> 16u32 != 0 && x >> 24u32 != 0 && y != 0
        && y >> 8u32 != 0 && y >> 16u32 != 0 && y >> 24u32 == 0))) by (bit_vector)
        requires
            y == x >> 8u32,
    ;
    assert(x >> 8u32 != 0 ==> x != 0) by (bit_vector);
}

/// `q` once every command of the packed word without parameters has been
/// queued: while no parameter is due, the next byte of the packed word
/// starts the next command, until none is left.
pub open spec fn gx_drain(q: GxQueueView) -> GxQueueView
    decreases bytes_left(q.last),
{
    if q.remaining != 0 {
        q
    } else {
        let last = q.last >> 8u32;
        if last != 0 {
            proof {
                lemma_bytes_left(q.last);
            }
            gx_drain(gx_open(GxQueueView { last, ..q }, (last & 0x7F) as u8))
        } else {
            GxQueueView { last: 0, ..q }
        }
    }
}

/// `q` after the CPU writes `value` to the packed command port: with no
/// packed word pending a nonzero value starts one (its low byte is the
/// first command), otherwise the value is the next parameter; then the
/// commands without parameters that follow are queued.
pub open spec fn gx_queue_packed(q: GxQueueView, value: u32) -> GxQueueView {
    if q.last == 0 {
        if value != 0 {
            gx_drain(gx_open(GxQueueView { last: value, ..q }, (value & 0x7F) as u8))
        } else {
            q
        }
    } else {
        gx_drain(
            GxQueueView {
                fifo: q.fifo.push(value),
                remaining: (q.remaining - 1) as u8,
                len: q.len + 1,
                ..q
            },
        )
    }
}

/// `q` after the CPU writes `value` to the port of command `cmd`: the first
/// write queues the command word and, if the command takes parameters, the
/// value as its first; later writes are its further parameters. Each write
/// counts one word.
pub open spec fn gx_queue_unpacked(q: GxQueueView, cmd: u8, value: u32) -> GxQueueView {
    if q.remaining == 0 {
        let pc = gx_param_count(cmd);
        GxQueueView {
            fifo: if pc > 0 {
                q.fifo.push(cmd_word(cmd)).push(value)
            } else {
                q.fifo.push(cmd_word(cmd))
            },
            remaining: if pc > 0 {
                (pc - 1) as u8
            } else {
                0
            },
            len: q.len + 1,
            tests: q.tests + if 0x70 <= cmd <= 0x72 {
                1int
            } else {
                0int
            },
            ..q
        }
    } else {
        GxQueueView {
            fifo: q.fifo.push(value),
            remaining: (q.remaining - 1) as u8,
            len: q.len + 1,
            ..q
        }
    }
}

/// Whether the engine can run the command at the processing offset: it is
/// queued with all its parameters.
pub open spec fn gx_can_run(q: GxQueueView) -> bool {
    q.offset < q.fifo.len() && (q.fifo[q.offset] >> 8u32) < q.fifo.len() - q.offset
}

/// `q` after the CPU writes `vs` to the packed command port, in order.
pub open spec fn gx_queue_packed_all(q: GxQueueView, vs: Seq<u32>) -> GxQueueView
    decreases vs.len(),
{
    if vs.len() == 0 {
        q
    } else {
        gx_queue_packed(gx_queue_packed_all(q, vs.drop_last()), vs.last())
    }
}

/// Whether a packed word being unpacked always has a parameter due (the
/// state every write to the packed port leaves).
pub open spec fn packed_ready(q: GxQueueView) -> bool {
    q.last != 0 ==> q.remaining != 0
}

/// The FIFO length the status word reports: the queued words less four,
/// never negative.
pub open spec fn gx_reported_len(q: GxQueueView) -> int {
    if q.len - 4 > 0 {
        q.len - 4
    } else {
        0
    }
}

/// The status word as the CPU reads it: `stat` with the engine busy flag
/// (bit 27: a command can run), the FIFO length (bits 16 to 24), "less
/// than half full" (bit 25: under 132 words), "empty" (bit 26: at most
/// four) and "test busy" (bit 0: test commands queued).
pub open spec fn gx_stat_report(stat: u32, q: GxQueueView) -> u32 {
    (stat & !0x0FFF_0001u32) | (if gx_can_run(q) {
        0x0800_0000u32
    } else {
        0u32
    }) | ((gx_reported_len(q) as u32) << 16u32) | (if q.len < 132 {
        0x0200_0000u32
    } else {
        0u32
    }) | (if q.len <= 4 {
        0x0400_0000u32
    } else {
        0u32
    }) | (if q.tests != 0 {
        1u32
    } else {
        0u32
    })
}

/// A ten-bit signed normal component (bits `shift` to `shift + 9` of `p`)
/// in the 16-bit form the polygon keeps: scaled by eight.
pub open spec fn normal_component(p: u32, shift: u32) -> i16 {
    let x = (p >> shift) & 0x3FF;
    ((if x >= 512 {
        x - 1024
    } else {
        x as int
    }) * 8) as i16
}

/// What the geometry engine is building: frame flags, the current viewport,
/// vertex list and vertex, the polygons of the frame, the texture matrices
/// its vertices use, the polygon and material words, and the results of
/// the position and vector tests.
pub struct GeometryState {
    pub flushed: bool,
    pub skip: bool,
    pub consume: bool,
    pub swap_buffers: u8,
    pub cur_viewport: u32,
    pub vertex_list_primitive_type: PrimitiveType,
    pub vertex_list_size: u16,
    pub cur_vtx: Vertex,
    pub vertices_size: u16,
    pub polygons: Vec<Polygon>,
    pub cur_polygon: Polygon,
    pub polygons_size: u16,
    pub tex_matrices: Vec<Matrix>,
    pub cur_polygon_attr: u32,
    pub material_color0: u32,
    pub material_color1: u32,
    pub pos_result: [i32; 4],
    pub vec_result: [i16; 3],
}

/// The state of the geometry engine: the mode that matrix commands act on,
/// the matrices, the status word with the stack levels, whether the clip
/// matrix and the texture matrix need recomputing, the command queue, and
/// what is being built.
pub struct Gpu3DRegisters {
    pub mtx_mode: MtxMode,
    pub matrices: Matrices,
    pub gx_stat: u32,
    pub clip_mtx_dirty: bool,
    pub tex_mtx_push: bool,
    pub queue: GxQueue,
    pub geometry: GeometryState,
}

impl Gpu3DRegisters {
    /// Selects the mode of the matrix commands (bits 0 and 1).
    pub fn exe_mtx_mode(&mut self, params: &[u32; 32])
        ensures
            final(self).queue == old(self).queue,
            final(self).geometry == old(self).geometry,
            final(self).mtx_mode == if params@[0] & 3 == 0 {
                MtxMode::Projection
            } else if params@[0] & 3 == 1 {
                MtxMode::ModelView
            } else if params@[0] & 3 == 2 {
                MtxMode::ModelViewVec
            } else {
                MtxMode::Texture
            },
            final(self).matrices == old(self).matrices,
            final(self).gx_stat == old(self).gx_stat,
            final(self).clip_mtx_dirty == old(self).clip_mtx_dirty,
            final(self).tex_mtx_push == old(self).tex_mtx_push,
    {
        let p0 = params[0];
        let v = p0 & 0x3;
        proof {
            lemma_word_fields(p0);
        }
        self.mtx_mode = MtxMode::from_bits(v as u8);
    }

    /// Pushes the current matrix: the projection stack has one slot, the
    /// position and direction stack 31 (the level is bits 8 to 12 of the
    /// status word); a push at level 30 or more raises the stack error, and
    /// one at level 31 is lost. The texture stack has one slot and never
    /// fails.
    pub fn exe_mtx_push(&mut self)
        ensures
            mtx_pushed(*old(self), *final(self)),
    {
        match self.mtx_mode {
            MtxMode::Projection => {
                if (self.gx_stat >> 13u32) & 1 == 0 {
                    self.matrices.proj_stack = self.matrices.proj;
                    self.gx_stat = (self.gx_stat & !0x2000u32) | ((1u32 & 1) << 13u32);
                } else {
                    self.gx_stat = self.gx_stat | 0x8000;
                }
            },
            MtxMode::ModelView | MtxMode::ModelViewVec => {
                let ptr = (self.gx_stat >> 8u32) & 0x1F;
                if ptr >= 30 {
                    self.gx_stat = self.gx_stat | 0x8000;
                }
                if ptr < 31 {
                    let i = ptr as usize;
                    self.matrices.coord_stack[i] = self.matrices.coord;
                    self.matrices.dir_stack[i] = self.matrices.dir;
                    self.gx_stat = (self.gx_stat & !0x1F00u32) | (((ptr + 1) & 0x1F) << 8u32);
                }
            },
            MtxMode::Texture => self.matrices.tex_stack = self.matrices.tex,
        }
    }

    /// Pops matrices: the projection matrix from its slot, or the position
    /// and direction matrices from `params[0]` (six bits, signed) levels
    /// down; a pop to level 30 or more raises the stack error, and one out of
    /// the stack changes nothing else.
    pub fn exe_mtx_pop(&mut self, params: &[u32; 32])
        ensures
            mtx_popped(*old(self), params@, *final(self)),
    {
        match self.mtx_mode {
            MtxMode::Projection => {
                if (self.gx_stat >> 13u32) & 1 == 1 {
                    self.matrices.proj = self.matrices.proj_stack;
                    self.gx_stat = (self.gx_stat & !0x2000u32) | ((0u32 & 1) << 13u32);
                    self.clip_mtx_dirty = true;
                } else {
                    self.gx_stat = self.gx_stat | 0x8000;
                }
            },
            MtxMode::ModelView | MtxMode::ModelViewVec => {
                let stat = self.gx_stat;
                let p0 = params[0];
                let lvl32 = (stat >> 8u32) & 0x1F;
                let raw32 = p0 & 0x3F;
                proof {
                    lemma_word_fields(stat);
                    lemma_word_fields(p0);
                }
                let lvl = lvl32 as i16;
                let raw = raw32 as i16;
                let offset = if raw >= 32 {
                    raw - 64
                } else {
                    raw
                };
                let d = lvl - offset;
                let ptr: u32 = if d < 0 {
                    (d + 256) as u32
                } else {
                    d as u32
                };
                if ptr >= 30 {
                    self.gx_stat = self.gx_stat | 0x8000;
                }
                if ptr < 31 {
                    self.gx_stat = (self.gx_stat & !0x1F00u32) | ((ptr & 0x1F) << 8u32);
                    let i = ptr as usize;
                    self.matrices.coord = self.matrices.coord_stack[i];
                    self.matrices.dir = self.matrices.dir_stack[i];
                    self.clip_mtx_dirty = true;
                }
            },
            MtxMode::Texture => {
                self.matrices.tex = self.matrices.tex_stack;
                self.tex_mtx_push = true;
            },
        }
    }

    /// Stores the current matrices in stack slot `params[0]` (five bits);
    /// slot 31 raises the stack error but is written.
    pub fn exe_mtx_store(&mut self, params: &[u32; 32])
        ensures
            final(self).queue == old(self).queue,
            final(self).geometry == old(self).geometry,
            final(self).mtx_mode == old(self).mtx_mode,
            final(self).clip_mtx_dirty == old(self).clip_mtx_dirty,
            final(self).tex_mtx_push == old(self).tex_mtx_push,
            ({
                let o = old(self).matrices;
                let f = final(self).matrices;
                let stat = old(self).gx_stat;
                let addr = params@[0] & 0x1F;
                match old(self).mtx_mode {
                    MtxMode::Projection => f == (Matrices { proj_stack: o.proj, ..o }) && final(self).gx_stat == stat,
                    MtxMode::Texture => f == (Matrices { tex_stack: o.tex, ..o }) && final(self).gx_stat == stat,
                    _ => {
                        &&& f.coord_stack@ == o.coord_stack@.update(addr as int, o.coord)
                        &&& f.dir_stack@ == o.dir_stack@.update(addr as int, o.dir)
                        &&& f == (Matrices { coord_stack: f.coord_stack, dir_stack: f.dir_stack, ..o })
                        &&& final(self).gx_stat == if addr == 31 {
                            with_stack_error(stat)
                        } else {
                            stat
                        }
                    },
                }
            }),
    {
        match self.mtx_mode {
            MtxMode::Projection => self.matrices.proj_stack = self.matrices.proj,
            MtxMode::ModelView | MtxMode::ModelViewVec => {
                let p0 = params[0];
                let addr = p0 & 0x1F;
                proof {
                    lemma_word_fields(p0);
                }
                if addr == 31 {
                    self.gx_stat = self.gx_stat | 0x8000;
                }
                let i = addr as usize;
                self.matrices.coord_stack[i] = self.matrices.coord;
                self.matrices.dir_stack[i] = self.matrices.dir;
            },
            MtxMode::Texture => self.matrices.tex_stack = self.matrices.tex,
        }
    }

    /// Loads the current matrices from stack slot `params[0]` (five bits);
    /// slot 31 raises the stack error but is read.
    pub fn exe_mtx_restore(&mut self, params: &[u32; 32])
        ensures
            final(self).queue == old(self).queue,
            final(self).geometry == old(self).geometry,
            final(self).mtx_mode == old(self).mtx_mode,
            ({
                let o = old(self).matrices;
                let f = final(self).matrices;
                let stat = old(self).gx_stat;
                let addr = params@[0] & 0x1F;
                match old(self).mtx_mode {
                    MtxMode::Projection => {
                        &&& f == (Matrices { proj: o.proj_stack, ..o })
                        &&& final(self).gx_stat == stat
                        &&& final(self).clip_mtx_dirty
                        &&& final(self).tex_mtx_push == old(self).tex_mtx_push
                    },
                    MtxMode::Texture => {
                        &&& f == (Matrices { tex: o.tex_stack, ..o })
                        &&& final(self).gx_stat == stat
                        &&& final(self).clip_mtx_dirty == old(self).clip_mtx_dirty
                        &&& final(self).tex_mtx_push
                    },
                    _ => {
                        &&& f == (Matrices { coord: o.coord_stack@[addr as int], dir: o.dir_stack@[addr as int], ..o })
                        &&& final(self).gx_stat == if addr == 31 {
                            with_stack_error(stat)
                        } else {
                            stat
                        }
                        &&& final(self).clip_mtx_dirty
                        &&& final(self).tex_mtx_push == old(self).tex_mtx_push
                    },
                }
            }),
    {
        match self.mtx_mode {
            MtxMode::Projection => {
                self.matrices.proj = self.matrices.proj_stack;
                self.clip_mtx_dirty = true;
            },
            MtxMode::ModelView | MtxMode::ModelViewVec => {
                let p0 = params[0];
                let addr = p0 & 0x1F;
                proof {
                    lemma_word_fields(p0);
                }
                if addr == 31 {
                    self.gx_stat = self.gx_stat | 0x8000;
                }
                let i = addr as usize;
                self.matrices.coord = self.matrices.coord_stack[i];
                self.matrices.dir = self.matrices.dir_stack[i];
                self.clip_mtx_dirty = true;
            },
            MtxMode::Texture => {
                self.matrices.tex = self.matrices.tex_stack;
                self.tex_mtx_push = true;
            },
        }
    }

    /// Sets the current matrices of the mode to the identity.
    pub fn exe_mtx_identity(&mut self)
        ensures
            final(self).queue == old(self).queue,
            final(self).geometry == old(self).geometry,
            final(self).mtx_mode == old(self).mtx_mode,
            final(self).gx_stat == old(self).gx_stat,
            ({
                let o = old(self).matrices;
                let f = final(self).matrices;
                match old(self).mtx_mode {
                    MtxMode::Projection => f == (Matrices { proj: f.proj, ..o }) && f.proj@ == identity()
                        && final(self).clip_mtx_dirty && final(self).tex_mtx_push == old(self).tex_mtx_push,
                    MtxMode::ModelView => f == (Matrices { coord: f.coord, ..o }) && f.coord@ == identity()
                        && final(self).clip_mtx_dirty && final(self).tex_mtx_push == old(self).tex_mtx_push,
                    MtxMode::ModelViewVec => f == (Matrices { coord: f.coord, dir: f.dir, ..o }) && f.coord@
                        == identity() && f.dir@ == identity() && final(self).clip_mtx_dirty
                        && final(self).tex_mtx_push == old(self).tex_mtx_push,
                    MtxMode::Texture => f == (Matrices { tex: f.tex, ..o }) && f.tex@ == identity()
                        && final(self).tex_mtx_push && final(self).clip_mtx_dirty == old(self).clip_mtx_dirty,
                }
            }),
    {
        match self.mtx_mode {
            MtxMode::Projection => {
                self.matrices.proj = identity_matrix();
                self.clip_mtx_dirty = true;
            },
            MtxMode::ModelView => {
                self.matrices.coord = identity_matrix();
                self.clip_mtx_dirty = true;
            },
            MtxMode::ModelViewVec => {
                self.matrices.coord = identity_matrix();
                self.matrices.dir = identity_matrix();
                self.clip_mtx_dirty = true;
            },
            MtxMode::Texture => {
                self.matrices.tex = identity_matrix();
                self.tex_mtx_push = true;
            },
        }
    }

    /// Loads the current matrices of the mode from sixteen parameters.
    pub fn exe_mtx_load44(&mut self, params: &[u32; 32])
        ensures
            final(self).queue == old(self).queue,
            final(self).geometry == old(self).geometry,
            final(self).mtx_mode == old(self).mtx_mode,
            final(self).gx_stat == old(self).gx_stat,
            ({
                let o = old(self).matrices;
                let f = final(self).matrices;
                let m = load44_matrix(params@);
                match old(self).mtx_mode {
                    MtxMode::Projection => f == (Matrices { proj: f.proj, ..o }) && f.proj@ == m
                        && final(self).clip_mtx_dirty && final(self).tex_mtx_push == old(self).tex_mtx_push,
                    MtxMode::ModelView => f == (Matrices { coord: f.coord, ..o }) && f.coord@ == m
                        && final(self).clip_mtx_dirty && final(self).tex_mtx_push == old(self).tex_mtx_push,
                    MtxMode::ModelViewVec => f == (Matrices { coord: f.coord, dir: f.dir, ..o }) && f.coord@
                        == m && f.dir@ == m && final(self).clip_mtx_dirty && final(self).tex_mtx_push
                        == old(self).tex_mtx_push,
                    MtxMode::Texture => f == (Matrices { tex: f.tex, ..o }) && f.tex@ == m
                        && final(self).tex_mtx_push && final(self).clip_mtx_dirty == old(self).clip_mtx_dirty,
                }
            }),
    {
        let m = load44(params);
        match self.mtx_mode {
            MtxMode::Projection => {
                self.matrices.proj = m;
                self.clip_mtx_dirty = true;
            },
            MtxMode::ModelView => {
                self.matrices.coord = m;
                self.clip_mtx_dirty = true;
            },
            MtxMode::ModelViewVec => {
                self.matrices.coord = m;
                self.matrices.dir = m;
                self.clip_mtx_dirty = true;
            },
            MtxMode::Texture => {
                self.matrices.tex = m;
                self.tex_mtx_push = true;
            },
        }
    }

    /// Loads the current matrices of the mode from twelve parameters, the
    /// last column fixed.
    pub fn exe_mtx_load43(&mut self, params: &[u32; 32])
        ensures
            final(self).queue == old(self).queue,
            final(self).geometry == old(self).geometry,
            final(self).mtx_mode == old(self).mtx_mode,
            final(self).gx_stat == old(self).gx_stat,
            ({
                let o = old(self).matrices;
                let f = final(self).matrices;
                let m = load43_matrix(params@);
                match old(self).mtx_mode {
                    MtxMode::Projection => f == (Matrices { proj: f.proj, ..o }) && f.proj@ == m
                        && final(self).clip_mtx_dirty && final(self).tex_mtx_push == old(self).tex_mtx_push,
                    MtxMode::ModelView => f == (Matrices { coord: f.coord, ..o }) && f.coord@ == m
                        && final(self).clip_mtx_dirty && final(self).tex_mtx_push == old(self).tex_mtx_push,
                    MtxMode::ModelViewVec => f == (Matrices { coord: f.coord, dir: f.dir, ..o }) && f.coord@
                        == m && f.dir@ == m && final(self).clip_mtx_dirty && final(self).tex_mtx_push
                        == old(self).tex_mtx_push,
                    MtxMode::Texture => f == (Matrices { tex: f.tex, ..o }) && f.tex@ == m
                        && final(self).tex_mtx_push && final(self).clip_mtx_dirty == old(self).clip_mtx_dirty,
                }
            }),
    {
        let m = load43(params);
        match self.mtx_mode {
            MtxMode::Projection => {
                self.matrices.proj = m;
                self.clip_mtx_dirty = true;
            },
            MtxMode::ModelView => {
                self.matrices.coord = m;
                self.clip_mtx_dirty = true;
            },
            MtxMode::ModelViewVec => {
                self.matrices.coord = m;
                self.matrices.dir = m;
                self.clip_mtx_dirty = true;
            },
            MtxMode::Texture => {
                self.matrices.tex = m;
                self.tex_mtx_push = true;
            },
        }
    }

    /// Writes the geometry status: a one in bit 15 clears the stack error and
    /// the projection stack level; the interrupt mode bits (30, 31) are
    /// taken.
    pub fn set_gx_stat(&mut self, mask: u32, value: u32)
        ensures
            final(self).queue == old(self).queue,
            final(self).geometry == old(self).geometry,
            ({
                let s1 = if value & 0x8000 != 0 {
                    old(self).gx_stat & !0xA000u32
                } else {
                    old(self).gx_stat
                };
                let m = mask & 0xC0000000;
                final(self).gx_stat == (s1 & !m) | (value & m)
            }),
            final(self).mtx_mode == old(self).mtx_mode,
            final(self).matrices == old(self).matrices,
            final(self).clip_mtx_dirty == old(self).clip_mtx_dirty,
            final(self).tex_mtx_push == old(self).tex_mtx_push,
    {
        if value & 0x8000 != 0 {
            self.gx_stat = self.gx_stat & !0xA000u32;
        }
        let m = mask & 0xC0000000;
        self.gx_stat = (self.gx_stat & !m) | (value & m);
    }

    /// Element `index` of the direction matrix read as a 3x3 matrix.
    pub fn get_vec_mtx_result(&self, index: usize) -> (r: u32)
        requires
            index < 9,
        ensures
            r == self.matrices.dir@[(index / 3) * 4 + index % 3] as u32,
    {
        self.matrices.dir[(index / 3) * 4 + index % 3] as u32
    }
}


impl GxQueue {
    /// Starts command `cmd`: queues its command word and makes its
    /// parameters due.
    fn open_cmd(&mut self, cmd: u8)
        requires
            cmd < 128,
            old(self).cmd_fifo_len < 0xFFFF,
            0x70 <= cmd <= 0x72 ==> old(self).test_queue < 0xFF,
        ensures
            final(self)@ == gx_open(old(self)@, cmd),
    {
        let pc = param_count(cmd);
        self.cmd_remaining_params = pc;
        self.cmd_fifo.push((cmd as u32) | ((pc as u32) << 8u32));
        if 0x70 <= cmd && cmd <= 0x72 {
            self.test_queue = self.test_queue + 1;
        }
        if pc == 0 {
            self.cmd_fifo_len = self.cmd_fifo_len + 1;
        }
    }
}

proof fn lemma_low7(v: u32)
    ensures
        v & 0x7F < 128,
{
    lemma_word_fields(v);
}

impl Gpu3DRegisters {
    /// The engine after reset: projection mode, identity matrices, an empty
    /// queue (the status reports it empty), nothing built, the texture and
    /// clip matrices due to be recorded.
    pub fn new() -> (r: Self)
        ensures
            r.mtx_mode == MtxMode::Projection,
            r.matrices.proj@ == identity(),
            r.matrices.proj_stack@ == identity(),
            r.matrices.coord@ == identity(),
            r.matrices.dir@ == identity(),
            r.matrices.tex@ == identity(),
            r.matrices.tex_stack@ == identity(),
            forall|i: int| 0 <= i < 32 ==> (#[trigger] r.matrices.coord_stack@[i])@ == identity(),
            forall|i: int| 0 <= i < 32 ==> (#[trigger] r.matrices.dir_stack@[i])@ == identity(),
            r.gx_stat == 0x0400_0000,
            !r.clip_mtx_dirty,
            r.tex_mtx_push,
            r.queue@ == (GxQueueView { fifo: Seq::empty(), remaining: 0, last: 0, len: 0, offset: 0, tests: 0 }),
            !r.geometry.flushed && !r.geometry.skip && !r.geometry.consume,
            r.geometry.swap_buffers == 0,
            r.geometry.cur_viewport == DEFAULT_VIEWPORT,
            r.geometry.vertex_list_primitive_type == PrimitiveType::SeparateTriangles,
            r.geometry.vertex_list_size == 0,
            r.geometry.vertices_size == 0,
            r.geometry.polygons_size == 0,
            r.geometry.polygons@.len() == POLYGON_LIMIT,
            forall|i: int| 0 <= i < POLYGON_LIMIT ==> is_blank_polygon(#[trigger] r.geometry.polygons@[i]),
            is_blank_polygon(r.geometry.cur_polygon),
            r.geometry.cur_vtx.tex_coord_trans_mode == TextureCoordTransMode::NoTransform,
            r.geometry.tex_matrices@.len() == 0,
            r.geometry.cur_polygon_attr == 0,
            r.geometry.material_color0 == 0,
            r.geometry.material_color1 == 0,
    {
        let id = identity_matrix();
        let blank = Polygon {
            normal: [0i16; 3],
            attr: 0,
            tex_image_param: 0,
            palette_addr: 0,
            polygon_type: PrimitiveType::SeparateTriangles,
            vertices_index: 0,
            viewport: DEFAULT_VIEWPORT,
        };
        assert(blank.normal@ =~= seq![0i16, 0, 0]);
        let mut polygons: Vec<Polygon> = Vec::new();
        while polygons.len() < POLYGON_LIMIT
            invariant
                polygons@.len() <= POLYGON_LIMIT,
                is_blank_polygon(blank),
                forall|i: int| 0 <= i < polygons@.len() ==> is_blank_polygon(#[trigger] polygons@[i]),
            decreases POLYGON_LIMIT - polygons@.len(),
        {
            polygons.push(blank);
        }
        let coord_stack = [id; 32];
        let dir_stack = [id; 32];
        Gpu3DRegisters {
            mtx_mode: MtxMode::Projection,
            matrices: Matrices {
                proj: id,
                proj_stack: id,
                coord: id,
                coord_stack,
                dir: id,
                dir_stack,
                tex: id,
                tex_stack: id,
            },
            gx_stat: 0x0400_0000,
            clip_mtx_dirty: false,
            tex_mtx_push: true,
            queue: GxQueue {
                cmd_fifo: Vec::new(),
                cmd_remaining_params: 0,
                last_cmd: 0,
                cmd_fifo_len: 0,
                processing_offset: 0,
                test_queue: 0,
            },
            geometry: GeometryState {
                flushed: false,
                skip: false,
                consume: false,
                swap_buffers: 0,
                cur_viewport: DEFAULT_VIEWPORT,
                vertex_list_primitive_type: PrimitiveType::SeparateTriangles,
                vertex_list_size: 0,
                cur_vtx: Vertex {
                    coords: [0i32; 4],
                    tex_coords: [0i16; 2],
                    color: 0,
                    tex_coord_trans_mode: TextureCoordTransMode::NoTransform,
                    tex_matrix_index: 0,
                    clip_matrix_index: 0,
                },
                vertices_size: 0,
                polygons,
                cur_polygon: blank,
                polygons_size: 0,
                tex_matrices: Vec::new(),
                cur_polygon_attr: 0,
                material_color0: 0,
                material_color1: 0,
                pos_result: [0i32; 4],
                vec_result: [0i16; 3],
            },
        }
    }

    /// Whether the queue is full (260 words or more): a write then stalls
    /// the CPU.
    pub fn is_cmd_fifo_full(&self) -> (r: bool)
        ensures
            r == (self.queue.cmd_fifo_len >= 260),
    {
        self.queue.cmd_fifo_len >= 260
    }

    /// Whether the queue is at least half full (132 words or more).
    pub fn is_cmd_fifo_half_full(&self) -> (r: bool)
        ensures
            r == (self.queue.cmd_fifo_len >= 132),
    {
        self.queue.cmd_fifo_len >= 132
    }

    /// Whether the queue is empty (at most four words: those the engine
    /// holds itself).
    pub fn is_cmd_fifo_empty(&self) -> (r: bool)
        ensures
            r == (self.queue.cmd_fifo_len <= 4),
    {
        self.queue.cmd_fifo_len <= 4
    }

    /// The FIFO length the status reports.
    pub fn get_cmd_fifo_len(&self) -> (r: usize)
        ensures
            r == gx_reported_len(self.queue@),
    {
        if self.queue.cmd_fifo_len > 4 {
            (self.queue.cmd_fifo_len - 4) as usize
        } else {
            0
        }
    }

    /// Whether the command at the processing offset is queued with all its
    /// parameters.
    pub fn can_run_cmds(&self) -> (r: bool)
        ensures
            r == gx_can_run(self.queue@),
    {
        self.queue.processing_offset < self.queue.cmd_fifo.len() && {
            let params_count = self.queue.cmd_fifo[self.queue.processing_offset] >> 8u32;
            (params_count as usize) < self.queue.cmd_fifo.len() - self.queue.processing_offset
        }
    }

    fn queue_packed_value(&mut self, value: u32)
        requires
            packed_ready(old(self).queue@),
            old(self).queue.cmd_fifo_len + 5 <= 0xFFFF,
            old(self).queue.test_queue < 0xFF,
        ensures
            final(self).queue@ == gx_queue_packed(old(self).queue@, value),
            packed_ready(final(self).queue@),
            final(self).queue.cmd_fifo_len <= old(self).queue.cmd_fifo_len + 5,
            final(self).queue.test_queue <= old(self).queue.test_queue + 1,
            final(self).mtx_mode == old(self).mtx_mode,
            final(self).matrices == old(self).matrices,
            final(self).gx_stat == old(self).gx_stat,
            final(self).clip_mtx_dirty == old(self).clip_mtx_dirty,
            final(self).tex_mtx_push == old(self).tex_mtx_push,
            final(self).geometry == old(self).geometry,
    {
        let ghost q0 = self.queue@;
        proof {
            lemma_low7(value);
            lemma_bytes_left(value);
        }
        if self.queue.last_cmd == 0 {
            if value != 0 {
                self.queue.last_cmd = value;
                self.queue.open_cmd((value & 0x7F) as u8);
            } else {
                return;
            }
        } else {
            self.queue.cmd_remaining_params = self.queue.cmd_remaining_params - 1;
            self.queue.cmd_fifo.push(value);
            self.queue.cmd_fifo_len = self.queue.cmd_fifo_len + 1;
            proof {
                lemma_bytes_left(self.queue.last_cmd);
            }
        }
        let ghost target = gx_drain(self.queue@);
        assert(gx_queue_packed(q0, value) == target);
        loop
            invariant_except_break
                gx_drain(self.queue@) == target,
            invariant
                self.queue.cmd_fifo_len + bytes_left(self.queue.last_cmd) <= q0.len + 5,
                q0.len + 5 <= 0xFFFF,
                self.queue.cmd_remaining_params == 0 ==> self.queue.test_queue == q0.tests,
                self.queue.test_queue <= q0.tests + 1,
                q0.tests < 0xFF,
                self.mtx_mode == old(self).mtx_mode,
                self.matrices == old(self).matrices,
                self.gx_stat == old(self).gx_stat,
                self.clip_mtx_dirty == old(self).clip_mtx_dirty,
                self.tex_mtx_push == old(self).tex_mtx_push,
                self.geometry == old(self).geometry,
            ensures
                self.queue@ == target,
                packed_ready(self.queue@),
                self.queue.cmd_fifo_len <= q0.len + 5,
                self.queue.test_queue <= q0.tests + 1,
            decreases bytes_left(self.queue.last_cmd),
        {
            proof {
                lemma_bytes_left(self.queue.last_cmd);
            }
            if self.queue.cmd_remaining_params != 0 {
                break;
            }
            let last = self.queue.last_cmd >> 8u32;
            self.queue.last_cmd = last;
            if last != 0 {
                proof {
                    lemma_low7(last);
                }
                self.queue.open_cmd((last & 0x7F) as u8);
            } else {
                break;
            }
        }
    }

    /// The CPU writes `value` under `mask` to the packed command port.
    /// Returns whether the queue is now full, in which case the CPU stalls
    /// until it drains.
    pub fn set_gx_fifo(&mut self, mask: u32, value: u32) -> (full: bool)
        requires
            packed_ready(old(self).queue@),
            old(self).queue.cmd_fifo_len + 5 <= 0xFFFF,
            old(self).queue.test_queue < 0xFF,
        ensures
            final(self).queue@ == gx_queue_packed(old(self).queue@, value & mask),
            packed_ready(final(self).queue@),
            full == (final(self).queue.cmd_fifo_len >= 260),
            final(self).mtx_mode == old(self).mtx_mode,
            final(self).matrices == old(self).matrices,
            final(self).gx_stat == old(self).gx_stat,
            final(self).clip_mtx_dirty == old(self).clip_mtx_dirty,
            final(self).tex_mtx_push == old(self).tex_mtx_push,
            final(self).geometry == old(self).geometry,
    {
        self.queue_packed_value(value & mask);
        self.is_cmd_fifo_full()
    }

    /// The CPU writes `values` to the packed command port, one after the
    /// other. Returns whether the queue is then full.
    pub fn set_gx_fifo_multiple(&mut self, values: &[u32]) -> (full: bool)
        requires
            packed_ready(old(self).queue@),
            old(self).queue.cmd_fifo_len + 5 * values@.len() + 5 <= 0xFFFF,
            old(self).queue.test_queue + values@.len() < 0xFF,
        ensures
            final(self).queue@ == gx_queue_packed_all(old(self).queue@, values@),
            packed_ready(final(self).queue@),
            full == (final(self).queue.cmd_fifo_len >= 260),
            final(self).mtx_mode == old(self).mtx_mode,
            final(self).matrices == old(self).matrices,
            final(self).gx_stat == old(self).gx_stat,
            final(self).clip_mtx_dirty == old(self).clip_mtx_dirty,
            final(self).tex_mtx_push == old(self).tex_mtx_push,
            final(self).geometry == old(self).geometry,
    {
        let mut i: usize = 0;
        while i < values.len()
            invariant
                i <= values@.len(),
                self.queue@ == gx_queue_packed_all(old(self).queue@, values@.subrange(0, i as int)),
                packed_ready(self.queue@),
                self.queue.cmd_fifo_len <= old(self).queue.cmd_fifo_len + 5 * i,
                self.queue.test_queue <= old(self).queue.test_queue + i,
                old(self).queue.cmd_fifo_len + 5 * values@.len() + 5 <= 0xFFFF,
                old(self).queue.test_queue + values@.len() < 0xFF,
                self.mtx_mode == old(self).mtx_mode,
                self.matrices == old(self).matrices,
                self.gx_stat == old(self).gx_stat,
                self.clip_mtx_dirty == old(self).clip_mtx_dirty,
                self.tex_mtx_push == old(self).tex_mtx_push,
                self.geometry == old(self).geometry,
            decreases values@.len() - i,
        {
            proof {
                assert(values@.subrange(0, i + 1).drop_last() =~= values@.subrange(0, i as int));
            }
            self.queue_packed_value(values[i]);
            i = i + 1;
        }
        proof {
            assert(values@.subrange(0, values@.len() as int) =~= values@);
        }
        self.is_cmd_fifo_full()
    }

    /// The CPU writes `value` to the port of command `CMD`. Returns whether
    /// the queue is now full.
    pub fn queue_unpacked_value<const CMD: u8>(&mut self, value: u32) -> (full: bool)
        requires
            CMD < 128,
            old(self).queue.cmd_fifo_len < 0xFFFF,
            old(self).queue.test_queue < 0xFF,
        ensures
            final(self).queue@ == gx_queue_unpacked(old(self).queue@, CMD, value),
            full == (final(self).queue.cmd_fifo_len >= 260),
            final(self).mtx_mode == old(self).mtx_mode,
            final(self).matrices == old(self).matrices,
            final(self).gx_stat == old(self).gx_stat,
            final(self).clip_mtx_dirty == old(self).clip_mtx_dirty,
            final(self).tex_mtx_push == old(self).tex_mtx_push,
            final(self).geometry == old(self).geometry,
    {
        if self.queue.cmd_remaining_params == 0 {
            let pc = param_count(CMD);
            self.queue.cmd_remaining_params = pc;
            self.queue.cmd_fifo.push((CMD as u32) | ((pc as u32) << 8u32));
            if pc > 0 {
                self.queue.cmd_remaining_params = pc - 1;
                self.queue.cmd_fifo.push(value);
            }
            if CMD == 0x70 || CMD == 0x71 || CMD == 0x72 {
                self.queue.test_queue = self.queue.test_queue + 1;
            }
        } else {
            self.queue.cmd_remaining_params = self.queue.cmd_remaining_params - 1;
            self.queue.cmd_fifo.push(value);
        }
        self.queue.cmd_fifo_len = self.queue.cmd_fifo_len + 1;
        self.is_cmd_fifo_full()
    }

    /// The status word as the CPU reads it.
    pub fn get_gx_stat(&self) -> (r: u32)
        requires
            self.queue.cmd_fifo_len <= 515,
        ensures
            r == gx_stat_report(self.gx_stat, self.queue@),
    {
        let busy: u32 = if self.can_run_cmds() {
            0x0800_0000
        } else {
            0
        };
        let n = self.get_cmd_fifo_len() as u32;
        let less_half: u32 = if !self.is_cmd_fifo_half_full() {
            0x0200_0000
        } else {
            0
        };
        let empty: u32 = if self.is_cmd_fifo_empty() {
            0x0400_0000
        } else {
            0
        };
        let test_busy: u32 = if self.queue.test_queue != 0 {
            1
        } else {
            0
        };
        (self.gx_stat & !0x0FFF_0001u32) | busy | (n << 16u32) | less_half | empty | test_busy
    }

    /// Ends a frame: the engine takes commands again, the next frame is
    /// skipped unless this one was drawn, and the commands run so far leave
    /// the queue.
    pub fn swap_buffers(&mut self)
        requires
            old(self).queue.processing_offset <= old(self).queue.cmd_fifo@.len(),
        ensures
            final(self).queue@ == (GxQueueView {
                fifo: old(self).queue@.fifo.subrange(old(self).queue@.offset, old(self).queue@.fifo.len() as int),
                offset: 0,
                ..old(self).queue@
            }),
            final(self).geometry == (GeometryState {
                flushed: false,
                consume: old(self).geometry.consume || !old(self).geometry.skip,
                skip: old(self).geometry.consume || !old(self).geometry.skip,
                ..old(self).geometry
            }),
            final(self).mtx_mode == old(self).mtx_mode,
            final(self).matrices == old(self).matrices,
            final(self).gx_stat == old(self).gx_stat,
            final(self).clip_mtx_dirty == old(self).clip_mtx_dirty,
            final(self).tex_mtx_push == old(self).tex_mtx_push,
    {
        self.geometry.flushed = false;
        if !self.geometry.skip {
            self.geometry.consume = true;
        }
        self.geometry.skip = self.geometry.consume;
        let start = self.queue.processing_offset;
        let mut rest: Vec<u32> = Vec::new();
        let mut k: usize = start;
        while k < self.queue.cmd_fifo.len()
            invariant
                start <= k <= self.queue.cmd_fifo@.len(),
                start == self.queue.processing_offset,
                self.queue == old(self).queue,
                rest@ == self.queue.cmd_fifo@.subrange(start as int, k as int),
            decreases self.queue.cmd_fifo@.len() - k,
        {
            rest.push(self.queue.cmd_fifo[k]);
            k = k + 1;
        }
        self.queue.cmd_fifo = rest;
        self.queue.processing_offset = 0;
    }

    /// Stores the polygon normal (three ten-bit signed components), unless
    /// the frame is skipped.
    pub fn exe_normal(&mut self, params: &[u32; 32])
        ensures
            old(self).geometry.skip ==> final(self).geometry == old(self).geometry,
            !old(self).geometry.skip ==> {
                &&& final(self).geometry.cur_polygon.normal@ == seq![
                    normal_component(params@[0], 0),
                    normal_component(params@[0], 10),
                    normal_component(params@[0], 20),
                ]
                &&& final(self).geometry == (GeometryState {
                    cur_polygon: Polygon { normal: final(self).geometry.cur_polygon.normal, ..old(self).geometry.cur_polygon },
                    ..old(self).geometry
                })
            },
            final(self).queue == old(self).queue,
            final(self).mtx_mode == old(self).mtx_mode,
            final(self).matrices == old(self).matrices,
            final(self).gx_stat == old(self).gx_stat,
            final(self).clip_mtx_dirty == old(self).clip_mtx_dirty,
            final(self).tex_mtx_push == old(self).tex_mtx_push,
    {
        if self.geometry.skip {
            return;
        }
        let p = params[0];
        let x = p & 0x3FF;
        let y = (p >> 10u32) & 0x3FF;
        let z = (p >> 20u32) & 0x3FF;
        proof {
            lemma_word_fields(p);
        }
        let nx: i16 = if x >= 512 { (x as i16 - 1024) * 8 } else { x as i16 * 8 };
        let ny: i16 = if y >= 512 { (y as i16 - 1024) * 8 } else { y as i16 * 8 };
        let nz: i16 = if z >= 512 { (z as i16 - 1024) * 8 } else { z as i16 * 8 };
        self.geometry.cur_polygon.normal[0] = nx;
        self.geometry.cur_polygon.normal[1] = ny;
        self.geometry.cur_polygon.normal[2] = nz;
        assert(self.geometry.cur_polygon.normal@ =~= seq![
            normal_component(params@[0], 0),
            normal_component(params@[0], 10),
            normal_component(params@[0], 20),
        ]);
    }

    /// Stores the texture coordinates of the vertex (two signed halves),
    /// unless the frame is skipped; a vertex whose coordinates are
    /// transformed by the texture matrix records that matrix if it changed.
    pub fn exe_tex_coord(&mut self, params: &[u32; 32])
        ensures
            old(self).geometry.skip ==> final(self).geometry == old(self).geometry && final(self).tex_mtx_push
                == old(self).tex_mtx_push,
            !old(self).geometry.skip ==> {
                let o = old(self).geometry;
                let f = final(self).geometry;
                let records = o.cur_vtx.tex_coord_trans_mode == TextureCoordTransMode::TexCoord
                    && old(self).tex_mtx_push;
                &&& f.cur_vtx.tex_coords@ == seq![params@[0] as u16 as i16, (params@[0] >> 16u32) as u16 as i16]
                &&& f.tex_matrices@ == if records {
                    o.tex_matrices@.push(old(self).matrices.tex)
                } else {
                    o.tex_matrices@
                }
                &&& final(self).tex_mtx_push == (old(self).tex_mtx_push && !records)
                &&& f.cur_vtx.tex_matrix_index == (f.tex_matrices@.len() as u16).wrapping_sub(1)
                &&& f == (GeometryState {
                    cur_vtx: Vertex {
                        tex_coords: f.cur_vtx.tex_coords,
                        tex_matrix_index: f.cur_vtx.tex_matrix_index,
                        ..o.cur_vtx
                    },
                    tex_matrices: f.tex_matrices,
                    ..o
                })
            },
            final(self).queue == old(self).queue,
            final(self).mtx_mode == old(self).mtx_mode,
            final(self).matrices == old(self).matrices,
            final(self).gx_stat == old(self).gx_stat,
            final(self).clip_mtx_dirty == old(self).clip_mtx_dirty,
    {
        if self.geometry.skip {
            return;
        }
        let p = params[0];
        self.geometry.cur_vtx.tex_coords[0] = p as u16 as i16;
        self.geometry.cur_vtx.tex_coords[1] = (p >> 16u32) as u16 as i16;
        if self.geometry.cur_vtx.tex_coord_trans_mode == TextureCoordTransMode::TexCoord && self.tex_mtx_push {
            self.geometry.tex_matrices.push(self.matrices.tex);
            self.tex_mtx_push = false;
        }
        self.geometry.cur_vtx.tex_matrix_index = (self.geometry.tex_matrices.len() as u16).wrapping_sub(1);
        assert(self.geometry.cur_vtx.tex_coords@ =~= seq![p as u16 as i16, (p >> 16u32) as u16 as i16]);
    }

    /// Stores the polygon attribute word for the next vertex list.
    pub fn exe_polygon_attr(&mut self, params: &[u32; 32])
        ensures
            final(self).geometry == (GeometryState { cur_polygon_attr: params@[0], ..old(self).geometry }),
            final(self).queue == old(self).queue,
            final(self).mtx_mode == old(self).mtx_mode,
            final(self).matrices == old(self).matrices,
            final(self).gx_stat == old(self).gx_stat,
            final(self).clip_mtx_dirty == old(self).clip_mtx_dirty,
            final(self).tex_mtx_push == old(self).tex_mtx_push,
    {
        self.geometry.cur_polygon_attr = params[0];
    }

    /// Stores the texture parameters of the polygon; bits 30 and 31 select
    /// how the vertex's texture coordinates are transformed.
    pub fn exe_tex_image_param(&mut self, params: &[u32; 32])
        ensures
            final(self).geometry == (GeometryState {
                cur_polygon: Polygon { tex_image_param: params@[0], ..old(self).geometry.cur_polygon },
                cur_vtx: Vertex {
                    tex_coord_trans_mode: trans_mode_of(params@[0] >> 30u32),
                    ..old(self).geometry.cur_vtx
                },
                ..old(self).geometry
            }),
            final(self).queue == old(self).queue,
            final(self).mtx_mode == old(self).mtx_mode,
            final(self).matrices == old(self).matrices,
            final(self).gx_stat == old(self).gx_stat,
            final(self).clip_mtx_dirty == old(self).clip_mtx_dirty,
            final(self).tex_mtx_push == old(self).tex_mtx_push,
    {
        let p = params[0];
        self.geometry.cur_polygon.tex_image_param = p;
        let mode = p >> 30u32;
        proof {
            lemma_word_fields(p);
        }
        self.geometry.cur_vtx.tex_coord_trans_mode = TextureCoordTransMode::from_bits(mode as u8);
    }

    /// Stores the texture palette base of the polygon (13 bits).
    pub fn exe_pltt_base(&mut self, params: &[u32; 32])
        ensures
            final(self).geometry == (GeometryState {
                cur_polygon: Polygon {
                    palette_addr: (params@[0] & 0x1FFF) as u16,
                    ..old(self).geometry.cur_polygon
                },
                ..old(self).geometry
            }),
            final(self).queue == old(self).queue,
            final(self).mtx_mode == old(self).mtx_mode,
            final(self).matrices == old(self).matrices,
            final(self).gx_stat == old(self).gx_stat,
            final(self).clip_mtx_dirty == old(self).clip_mtx_dirty,
            final(self).tex_mtx_push == old(self).tex_mtx_push,
    {
        self.geometry.cur_polygon.palette_addr = (params[0] & 0x1FFF) as u16;
    }

    /// Stores the specular and emission material word.
    pub fn exe_spe_emi(&mut self, params: &[u32; 32])
        ensures
            final(self).geometry == (GeometryState { material_color1: params@[0], ..old(self).geometry }),
            final(self).queue == old(self).queue,
            final(self).mtx_mode == old(self).mtx_mode,
            final(self).matrices == old(self).matrices,
            final(self).gx_stat == old(self).gx_stat,
            final(self).clip_mtx_dirty == old(self).clip_mtx_dirty,
            final(self).tex_mtx_push == old(self).tex_mtx_push,
    {
        self.geometry.material_color1 = params[0];
    }

    /// Starts a vertex list of the primitive type in bits 0 and 1, unless
    /// the frame is skipped: the vertices of an unfinished polygon of the
    /// previous list are dropped, and the polygon takes the current
    /// attributes and viewport.
    pub fn exe_begin_vtxs(&mut self, params: &[u32; 32])
        requires
            old(self).geometry.vertex_list_size <= old(self).geometry.vertices_size,
        ensures
            old(self).geometry.skip ==> final(self).geometry == old(self).geometry,
            !old(self).geometry.skip ==> {
                let o = old(self).geometry;
                final(self).geometry == (GeometryState {
                    vertices_size: if o.vertex_list_size < vertex_count_of(o.vertex_list_primitive_type) {
                        (o.vertices_size - o.vertex_list_size) as u16
                    } else {
                        o.vertices_size
                    },
                    vertex_list_primitive_type: primitive_of(params@[0] & 3),
                    vertex_list_size: 0,
                    cur_polygon: Polygon { attr: o.cur_polygon_attr, viewport: o.cur_viewport, ..o.cur_polygon },
                    ..o
                })
            },
            final(self).queue == old(self).queue,
            final(self).mtx_mode == old(self).mtx_mode,
            final(self).matrices == old(self).matrices,
            final(self).gx_stat == old(self).gx_stat,
            final(self).clip_mtx_dirty == old(self).clip_mtx_dirty,
            final(self).tex_mtx_push == old(self).tex_mtx_push,
    {
        if self.geometry.skip {
            return;
        }
        if self.geometry.vertex_list_size < self.geometry.vertex_list_primitive_type.vertex_count() as u16 {
            self.geometry.vertices_size = self.geometry.vertices_size - self.geometry.vertex_list_size;
        }
        let p = params[0];
        let t = p & 0x3;
        proof {
            lemma_word_fields(p);
        }
        self.geometry.vertex_list_primitive_type = PrimitiveType::from_bits(t as u8);
        self.geometry.vertex_list_size = 0;
        self.geometry.cur_polygon.attr = self.geometry.cur_polygon_attr;
        self.geometry.cur_polygon.viewport = self.geometry.cur_viewport;
    }

    /// Ends the frame's commands: the engine stops taking commands until
    /// the buffers are swapped, with the swap mode of the low byte.
    pub fn exe_swap_buffers(&mut self, params: &[u32; 32])
        ensures
            final(self).geometry == (GeometryState {
                flushed: true,
                swap_buffers: params@[0] as u8,
                ..old(self).geometry
            }),
            final(self).queue == old(self).queue,
            final(self).mtx_mode == old(self).mtx_mode,
            final(self).matrices == old(self).matrices,
            final(self).gx_stat == old(self).gx_stat,
            final(self).clip_mtx_dirty == old(self).clip_mtx_dirty,
            final(self).tex_mtx_push == old(self).tex_mtx_push,
    {
        self.geometry.flushed = true;
        self.geometry.swap_buffers = params[0] as u8;
    }

    /// Stores the viewport for the next vertex list.
    pub fn exe_viewport(&mut self, params: &[u32; 32])
        ensures
            final(self).geometry == (GeometryState { cur_viewport: params@[0], ..old(self).geometry }),
            final(self).queue == old(self).queue,
            final(self).mtx_mode == old(self).mtx_mode,
            final(self).matrices == old(self).matrices,
            final(self).gx_stat == old(self).gx_stat,
            final(self).clip_mtx_dirty == old(self).clip_mtx_dirty,
            final(self).tex_mtx_push == old(self).tex_mtx_push,
    {
        self.geometry.cur_viewport = params[0];
    }

    /// Runs a box test: the result (bit 1 of the status) is always "inside",
    /// and the test leaves the queue of tests.
    pub fn exe_box_test(&mut self, params: &[u32; 32])
        requires
            old(self).queue.test_queue > 0,
        ensures
            final(self).gx_stat == old(self).gx_stat | 2,
            final(self).queue@ == (GxQueueView { tests: old(self).queue@.tests - 1, ..old(self).queue@ }),
            final(self).geometry == old(self).geometry,
            final(self).mtx_mode == old(self).mtx_mode,
            final(self).matrices == old(self).matrices,
            final(self).clip_mtx_dirty == old(self).clip_mtx_dirty,
            final(self).tex_mtx_push == old(self).tex_mtx_push,
    {
        self.gx_stat = self.gx_stat | 2;
        self.queue.test_queue = self.queue.test_queue - 1;
    }

    /// Records a polygon of the current list ending at the last vertex, as
    /// long as the frame has room for one.
    pub fn add_polygon(&mut self)
        requires
            old(self).geometry.polygons@.len() == POLYGON_LIMIT,
            old(self).geometry.vertices_size >= vertex_count_of(old(self).geometry.vertex_list_primitive_type),
        ensures
            ({
                let o = old(self).geometry;
                let f = final(self).geometry;
                if o.polygons_size >= POLYGON_LIMIT {
                    f == o
                } else {
                    &&& f.polygons@ == o.polygons@.update(
                        o.polygons_size as int,
                        Polygon {
                            polygon_type: o.vertex_list_primitive_type,
                            vertices_index: (o.vertices_size - vertex_count_of(o.vertex_list_primitive_type)) as u16,
                            ..o.cur_polygon
                        },
                    )
                    &&& f == (GeometryState { polygons: f.polygons, polygons_size: (o.polygons_size + 1) as u16, ..o })
                }
            }),
            final(self).queue == old(self).queue,
            final(self).mtx_mode == old(self).mtx_mode,
            final(self).matrices == old(self).matrices,
            final(self).gx_stat == old(self).gx_stat,
            final(self).clip_mtx_dirty == old(self).clip_mtx_dirty,
            final(self).tex_mtx_push == old(self).tex_mtx_push,
    {
        if self.geometry.polygons_size as usize >= POLYGON_LIMIT {
            return;
        }
        let size = self.geometry.vertex_list_primitive_type.vertex_count();
        let mut polygon = self.geometry.cur_polygon;
        polygon.polygon_type = self.geometry.vertex_list_primitive_type;
        polygon.vertices_index = self.geometry.vertices_size - size as u16;
        let i = self.geometry.polygons_size as usize;
        self.geometry.polygons[i] = polygon;
        self.geometry.polygons_size = self.geometry.polygons_size + 1;
    }

    /// The vertex count (high half) and polygon count (low half) of the
    /// frame.
    pub fn get_ram_count(&self) -> (r: u32)
        ensures
            r == ((self.geometry.vertices_size as u32) << 16u32) | (self.geometry.polygons_size as u32),
    {
        ((self.geometry.vertices_size as u32) << 16u32) | (self.geometry.polygons_size as u32)
    }

    /// Component `index` of the last position test result.
    pub fn get_pos_result(&self, index: usize) -> (r: u32)
        requires
            index < 4,
        ensures
            r == self.geometry.pos_result@[index as int] as u32,
    {
        self.geometry.pos_result[index] as u32
    }

    /// Component `index` of the last vector test result.
    pub fn get_vec_result(&self, index: usize) -> (r: u16)
        requires
            index < 3,
        ensures
            r == self.geometry.vec_result@[index as int] as u16,
    {
        self.geometry.vec_result[index] as u16
    }
}


/// `q` after the CPU writes `vs` to the port of command `cmd`, in order.
pub open spec fn gx_queue_unpacked_all(q: GxQueueView, cmd: u8, vs: Seq<u32>) -> GxQueueView
    decreases vs.len(),
{
    if vs.len() == 0 {
        q
    } else {
        gx_queue_unpacked(gx_queue_unpacked_all(q, cmd, vs.drop_last()), cmd, vs.last())
    }
}

proof fn lemma_packed_params(q: GxQueueView, cmd: u8, ps: Seq<u32>, k: int)
    requires
        q.remaining == 0,
        q.last == 0,
        0 < cmd < 128,
        ps.len() == gx_param_count(cmd) as int,
        ps.len() > 0,
        0 <= k <= ps.len(),
    ensures
        ({
            let r = gx_queue_packed_all(q, seq![cmd as u32] + ps.subrange(0, k));
            &&& r.fifo == q.fifo.push(cmd_word(cmd)) + ps.subrange(0, k)
            &&& r.remaining == ps.len() - k
            &&& r.last == if k < ps.len() {
                cmd as u32
            } else {
                0
            }
            &&& r.len == q.len + k
            &&& r.offset == q.offset
            &&& r.tests == q.tests + if 0x70 <= cmd <= 0x72 {
                1int
            } else {
                0int
            }
        }),
    decreases k,
{
    let c = cmd as u32;
    lemma_word_fields(c);
    assert((c & 0x7F) as u8 == cmd);
    if k == 0 {
        let w = seq![cmd as u32] + ps.subrange(0, 0);
        assert(w.drop_last() =~= Seq::<u32>::empty());
        assert(w.last() == c);
        assert(gx_queue_packed_all(q, w.drop_last()) == q);
        let o = gx_open(GxQueueView { last: c, ..q }, cmd);
        assert(o.remaining != 0);
        assert(gx_drain(o) == o);
        assert(o.fifo =~= q.fifo.push(cmd_word(cmd)) + ps.subrange(0, 0));
    } else {
        lemma_packed_params(q, cmd, ps, k - 1);
        let w = seq![cmd as u32] + ps.subrange(0, k);
        assert(w.drop_last() =~= seq![cmd as u32] + ps.subrange(0, k - 1));
        assert(w.last() == ps[k - 1]);
        let prev = gx_queue_packed_all(q, seq![cmd as u32] + ps.subrange(0, k - 1));
        let mid = GxQueueView {
            fifo: prev.fifo.push(ps[k - 1]),
            remaining: (prev.remaining - 1) as u8,
            len: prev.len + 1,
            ..prev
        };
        assert(mid.fifo =~= q.fifo.push(cmd_word(cmd)) + ps.subrange(0, k));
        if k < ps.len() {
            assert(gx_drain(mid) == mid);
        } else {
            assert(mid.last >> 8u32 == 0);
            assert(gx_drain(mid) == GxQueueView { last: 0, ..mid });
        }
    }
}

proof fn lemma_unpacked_params(q: GxQueueView, cmd: u8, ps: Seq<u32>, k: int)
    requires
        q.remaining == 0,
        ps.len() == gx_param_count(cmd) as int,
        ps.len() > 0,
        1 <= k <= ps.len(),
    ensures
        ({
            let r = gx_queue_unpacked_all(q, cmd, ps.subrange(0, k));
            &&& r.fifo == q.fifo.push(cmd_word(cmd)) + ps.subrange(0, k)
            &&& r.remaining == ps.len() - k
            &&& r.last == q.last
            &&& r.len == q.len + k
            &&& r.offset == q.offset
            &&& r.tests == q.tests + if 0x70 <= cmd <= 0x72 {
                1int
            } else {
                0int
            }
        }),
    decreases k,
{
    let w = ps.subrange(0, k);
    assert(w.drop_last() =~= ps.subrange(0, k - 1));
    if k == 1 {
        assert(ps.subrange(0, 0) =~= Seq::<u32>::empty());
        assert(gx_queue_unpacked_all(q, cmd, ps.subrange(0, 0)) == q);
        assert(q.fifo.push(cmd_word(cmd)).push(ps[0]) =~= q.fifo.push(cmd_word(cmd)) + ps.subrange(0, 1));
    } else {
        lemma_unpacked_params(q, cmd, ps, k - 1);
        let prev = gx_queue_unpacked_all(q, cmd, ps.subrange(0, k - 1));
        assert(prev.fifo.push(ps[k - 1]) =~= q.fifo.push(cmd_word(cmd)) + ps.subrange(0, k));
    }
}

/// Writing a command to the packed port (alone in its word) and then its
/// parameters queues the same as writing the parameters to the command's
/// own port, from a queue that is not in the middle of a command: the same
/// words, the same length, the same tests, nothing left due. A command
/// without parameters takes one write to its port, whatever the value.
pub proof fn law_packed_matches_unpacked(q: GxQueueView, cmd: u8, params: Seq<u32>, v: u32)
    requires
        q.remaining == 0,
        q.last == 0,
        0 < cmd < 128,
        params.len() == gx_param_count(cmd) as int,
    ensures
        params.len() > 0 ==> gx_queue_packed_all(q, seq![cmd as u32] + params) == gx_queue_unpacked_all(
            q,
            cmd,
            params,
        ),
        params.len() == 0 ==> gx_queue_packed(q, cmd as u32) == gx_queue_unpacked(q, cmd, v),
{
    if params.len() > 0 {
        lemma_packed_params(q, cmd, params, params.len() as int);
        lemma_unpacked_params(q, cmd, params, params.len() as int);
        assert(params.subrange(0, params.len() as int) =~= params);
    } else {
        let c = cmd as u32;
        lemma_word_fields(c);
        assert((c & 0x7F) as u8 == cmd);
        let o = gx_open(GxQueueView { last: c, ..q }, cmd);
        assert(o.remaining == 0);
        assert(gx_drain(o) == GxQueueView { last: 0, ..o });
    }
}

/// A push followed by a pop of one level gives back the matrices that were
/// current, at the stack level and status that were current, whenever the
/// push did not overflow: level 0 of the projection stack, or a position
/// and direction level under 30.
pub proof fn law_push_then_pop_restores(a: Gpu3DRegisters, b: Gpu3DRegisters, params: Seq<u32>, c: Gpu3DRegisters)
    requires
        mtx_pushed(a, b),
        mtx_popped(b, params, c),
        params.len() > 0,
        pop_offset(params[0]) == 1,
        a.mtx_mode == MtxMode::Projection ==> proj_level(a.gx_stat) == 0,
        a.mtx_mode == MtxMode::ModelView || a.mtx_mode == MtxMode::ModelViewVec ==> pos_vec_level(a.gx_stat) < 30,
    ensures
        c.matrices.proj == a.matrices.proj,
        c.matrices.coord == a.matrices.coord,
        c.matrices.dir == a.matrices.dir,
        c.matrices.tex == a.matrices.tex,
        c.gx_stat == a.gx_stat,
        c.mtx_mode == a.mtx_mode,
{
    let s = a.gx_stat;
    match a.mtx_mode {
        MtxMode::Projection => {
            let s1 = with_proj_level(s, 1);
            assert(proj_level(s1) == 1 && with_proj_level(s1, 0) == s) by (bit_vector)
                requires
                    s1 == (s & !0x2000u32) | ((1u32 & 1) << 13u32),
                    (s >> 13u32) & 1 == 0,
            ;
        },
        MtxMode::Texture => {},
        _ => {
            let lvl = pos_vec_level(s);
            let s1 = with_pos_vec_level(s, (lvl + 1) as u32);
            let l1 = (lvl + 1) as u32;
            assert(pos_vec_level(s1) == l1 && with_pos_vec_level(s1, lvl) == s) by (bit_vector)
                requires
                    lvl == (s >> 8u32) & 0x1F,
                    lvl < 30,
                    l1 == lvl + 1,
                    s1 == (s & !0x1F00u32) | ((l1 & 0x1F) << 8u32),
            ;
            assert(b.matrices.coord_stack@[lvl as int] == a.matrices.coord);
            assert(b.matrices.dir_stack@[lvl as int] == a.matrices.dir);
        },
    }
}

} // verus!
