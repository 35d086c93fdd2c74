pub mod gpu;
pub mod gpu_2d;
pub mod gpu_3d;
pub mod gpu_mem_buf;
