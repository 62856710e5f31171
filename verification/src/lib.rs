//! HIF, a raw raster image container, and the codec for it.
//!
//! A container is eight bytes of header, the width and the height of the
//! image as 32-bit numbers, and then three bytes for each pixel: red, green,
//! blue, row by row from the top and each row from the left. There is no
//! padding, no checksum and no opacity. Both header fields stand in one byte
//! order, which writer and reader have to agree on: every operation on a
//! container takes it as an argument, and `Sam::native_byte_order` gives the
//! order of the machine.
//!
//! - `byte_order`: the two byte orders and the header fields in them
//! - `bitmap`: the decoded form of a container
//! - `container`: bitmap to bytes and back
//! - `surface`: a grid of pixels with an opacity each
//! - `rasterizer`: bitmap to surface and back
//! - `compression`: a container as a gzip stream
//! - `sam`: image to container and container to surface in one step

pub mod bitmap;
pub mod byte_order;
pub mod compression;
pub mod container;
pub mod rasterizer;
pub mod sam;
pub mod surface;
