use vstd::prelude::*;
use vstd::string::StrSliceExecFns;

use crate::codec::{
    choose_encoder, encode_capture, encoded_bytes, encoder_accepts, encoder_choice_spec,
};
use crate::errors::EncodeError;
use crate::request::FileType;

verus! {

/// Where encoded bytes go.
#[derive(Debug, PartialEq)]
pub enum SinkChoice {
    /// Stream to the standard output.
    Stdout,
    /// Persist to this path, creating parent directories as needed.
    Path(String),
    /// No destination was given and standard output is a terminal:
    /// derive the default timestamped path.
    DeriveDefault,
}

/// The `-` sentinel that means "standard output".
pub open spec fn is_dash(s: Seq<char>) -> bool {
    s.len() == 1 && s[0] == '-'
}

/// The sink a destination resolves to: `-` always means standard output,
/// whatever the terminal state; an absent destination means standard
/// output when the process is piped, and the derived default path only
/// when standard output is a terminal; any other text is a file path.
pub open spec fn sink_matches(
    sink: SinkChoice,
    destination: Option<String>,
    stdout_is_tty: bool,
) -> bool {
    match destination {
        Some(d) => if is_dash(d@) {
            sink is Stdout
        } else {
            (sink matches SinkChoice::Path(p) && p@ == d@)
        },
        None => if stdout_is_tty {
            sink is DeriveDefault
        } else {
            sink is Stdout
        },
    }
}

fn is_dash_exec(s: &String) -> (r: bool)
    ensures
        r == is_dash(s@),
{
    let st = s.as_str();
    if st.unicode_len() == 1 {
        st.get_char(0) == '-'
    } else {
        false
    }
}

/// Resolve the sink for a requested destination and the terminal state
/// of standard output.
pub fn resolve_sink(destination: &Option<String>, stdout_is_tty: bool) -> (r: SinkChoice)
    ensures
        sink_matches(r, *destination, stdout_is_tty),
{
    match destination {
        Some(d) => {
            if is_dash_exec(d) {
                SinkChoice::Stdout
            } else {
                SinkChoice::Path(d.clone())
            }
        },
        None => {
            if stdout_is_tty {
                SinkChoice::DeriveDefault
            } else {
                SinkChoice::Stdout
            }
        },
    }
}

/// A routed capture: the sink to write to and the encoded bytes.
#[derive(Debug)]
pub struct RoutedCapture {
    pub sink: SinkChoice,
    pub bytes: Vec<u8>,
}

/// Route a captured RGBA buffer: pick the sink from the destination and
/// terminal state, pick the encoder invocation from the file type and
/// its parameters (default-value bypass included), and encode. Success
/// is owed whenever the buffer matches the dimensions and the chosen
/// encoder accepts them.
///
/// Writing the bytes to the sink, and deriving the default path when the
/// sink asks for one, are the caller's side effects.
pub fn route_capture(
    data: &Vec<u8>,
    width: u32,
    height: u32,
    filetype: FileType,
    quality: u8,
    level: u8,
    destination: &Option<String>,
    stdout_is_tty: bool,
) -> (r: Result<RoutedCapture, EncodeError>)
    requires
        quality <= 100,
        level <= 9,
    ensures
        r matches Ok(routed) ==> {
            &&& sink_matches(routed.sink, *destination, stdout_is_tty)
            &&& routed.bytes@ == encoded_bytes(
                encoder_choice_spec(filetype, quality, level),
                data@,
                width,
                height,
            )
            &&& data@.len() == 4 * width * height
        },
        data@.len() != 4 * width * height ==> (r matches Err(
            EncodeError::BufferSizeMismatch { expected, got },
        ) && expected == 4 * width * height && got == data@.len()),
        r matches Err(EncodeError::BufferSizeMismatch { .. }) ==> data@.len() != 4 * width * height,
        data@.len() == 4 * width * height && encoder_accepts(
            encoder_choice_spec(filetype, quality, level),
            width,
            height,
        ) ==> r is Ok,
{
    let sink = resolve_sink(destination, stdout_is_tty);
    let choice = choose_encoder(filetype, quality, level);
    match encode_capture(data, width, height, choice) {
        Ok(bytes) => Ok(RoutedCapture { sink, bytes }),
        Err(e) => Err(e),
    }
}

} // verus!
