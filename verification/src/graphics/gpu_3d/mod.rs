pub mod gx_cmd_fifo;
pub mod matrix_vec;
pub mod registers_3d;
pub mod renderer_3d;
pub mod texels;
