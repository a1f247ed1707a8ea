//! Capture-parameter resolution and output routing for a Wayland
//! screenshot tool.
//!
//! The crate turns a sparse user request (optional region, optional output
//! name, optional scale, cursor flag) into a fully resolved capture plan
//! against a snapshot of compositor outputs, and routes a captured pixel
//! buffer to the right encoder (PNG / PPM / JPEG) and the right sink
//! (file path or standard output). A finalize pass validates and applies
//! a rectangular crop to an already-saved image.
//!
//! Compositor I/O, file writes and the encoders themselves live outside
//! the crate; everything that decides or computes is here, with contracts.

mod codec;
mod errors;
mod finalize;
mod geometry;
mod paths;
mod request;
mod resolver;
mod router;
mod xdg;

pub use codec::{
    choose_encoder, encode_capture, encode_ppm, rgba_to_rgb, EncoderChoice, DEFAULT_JPEG_QUALITY,
    DEFAULT_PNG_LEVEL,
};
pub use errors::{EncodeError, FinalizeError, ResolveError};
pub use finalize::{check_crop_bounds, crop_image_px, parse_crop_px, sniff_filetype};
pub use paths::{
    capture_filename_at, choose_output_dir, finalize_filename_at, generate_default_filename,
    generate_default_finalize_filename, join_path,
};
pub use geometry::{parse_region, Region};
pub use request::{CaptureArgs, CopyFileArgs, FileType, FinalizeArgs};
pub use resolver::{resolve, CaptureMode, CapturePlan, CaptureRequest, OutputDescriptor};
pub use router::{resolve_sink, route_capture, RoutedCapture, SinkChoice};
pub use xdg::{expand_home_dir, pictures_dir_from_lines};
