//! The decisions of a forward renderer on an explicit graphics API, verified:
//! how each frame's dynamic buffer is laid out and filled, when GPU buffers
//! grow and which descriptor bindings that rewrites, how the static geometry
//! buffer is packed, which draws go to which per-material command buffer,
//! how the swapchain is configured, and how the render loop hands resources
//! between the CPU and the device. The device calls themselves are made by
//! the caller with the values these functions return.
pub mod buffer;
pub mod component_list;
pub mod descriptors;
pub mod frame;
pub mod frame_bytes;
pub mod layout;
pub mod mesh;
pub mod record;
pub mod render_loop;
pub mod renderer;
pub mod static_meshes;
pub mod swapchain;
