use vstd::prelude::*;

use crate::resolver::CaptureRequest;

verus! {

/// The image formats the tool can write.
#[derive(Clone, Copy, Debug, PartialEq, Eq, Structural)]
pub enum FileType {
    Png,
    Ppm,
    Jpeg,
}

impl FileType {
    /// The file extension the default filename uses for this type.
    pub open spec fn spec_extension(self) -> Seq<char> {
        match self {
            FileType::Png => "png"@,
            FileType::Ppm => "ppm"@,
            FileType::Jpeg => "jpeg"@,
        }
    }

    pub fn extension(&self) -> (r: &'static str)
        ensures
            r@ == self.spec_extension(),
    {
        match self {
            FileType::Png => "png",
            FileType::Ppm => "ppm",
            FileType::Jpeg => "jpeg",
        }
    }
}

/// A capture invocation, as the command line hands it over: all fields
/// validated into plain values. `quality` is 0–100, `level` 0–9.
#[derive(Debug)]
pub struct CaptureArgs {
    /// Explicit scale factor in thousandths, when given.
    pub scale_millis: Option<u32>,
    /// Region literal, or the line read from standard input in its place.
    pub geometry: Option<String>,
    pub filetype: FileType,
    /// JPEG quality, 0–100; 80 unless overridden.
    pub quality: u8,
    /// PNG compression level, 0–9; 6 unless overridden.
    pub level: u8,
    /// Name of the output to capture, when given.
    pub output: Option<String>,
    /// Whether to include the cursor.
    pub cursor: bool,
    /// Destination: a path, `-` for standard output, or absent to derive
    /// a default.
    pub output_file: Option<String>,
}

impl CaptureArgs {
    /// The ranges the command line guarantees.
    pub open spec fn wf(self) -> bool {
        self.quality <= 100 && self.level <= 9
    }

    /// The resolver's view of these arguments: the fields that steer
    /// capture resolution, copied out.
    pub fn request(&self) -> (r: CaptureRequest)
        ensures
            r.scale_millis == self.scale_millis,
            match self.geometry {
                Some(g) => r.geometry matches Some(g2) && g2@ == g@,
                None => r.geometry is None,
            },
            match self.output {
                Some(o) => r.output_name matches Some(o2) && o2@ == o@,
                None => r.output_name is None,
            },
            r.cursor == self.cursor,
    {
        CaptureRequest {
            scale_millis: self.scale_millis,
            geometry: match &self.geometry {
                Some(g) => Some(g.clone()),
                None => None,
            },
            output_name: match &self.output {
                Some(o) => Some(o.clone()),
                None => None,
            },
            cursor: self.cursor,
        }
    }
}

/// A finalize invocation: crop an already-saved image.
#[derive(Debug)]
pub struct FinalizeArgs {
    /// Path of the base image to crop.
    pub base: String,
    /// The crop rectangle, expected as exactly four integers `x y w h`.
    pub crop_px: Vec<u32>,
    /// Whether to delete the base file after a successful finalize.
    pub delete_base: bool,
    /// Destination: a path, `-` for standard output, or absent to derive
    /// a default.
    pub output_file: Option<String>,
}

/// A clipboard-copy invocation: hand a file to the clipboard utility.
#[derive(Debug)]
pub struct CopyFileArgs {
    /// MIME type passed on to the clipboard utility.
    pub mime_type: String,
    /// File to copy.
    pub path: String,
}

} // verus!
