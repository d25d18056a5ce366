//! What a run of the layout engine comes to: the image, or an error that
//! carries the engine's own words.

use vstd::prelude::*;

verus! {

/// The layout engine's command.
pub const LAYOUT_COMMAND: &'static str = "dot";

/// The flag that asks the layout engine for a vector image.
pub const SVG_OUTPUT_FLAG: &'static str = "-Tsvg";

/// Why a description could not be laid out.
pub enum LayoutError {
    /// The engine could not be started, or its streams failed.
    Spawn { reason: String },
    /// The engine exited with a failure status; what it wrote on its error
    /// stream, verbatim.
    Exited { stderr: String },
}

pub open spec fn message_of(e: LayoutError) -> Seq<char> {
    match e {
        LayoutError::Spawn { reason } => "could not run the layout engine: "@ + reason@,
        LayoutError::Exited { stderr } => "the layout engine failed: "@ + stderr@,
    }
}

impl LayoutError {
    /// A message for diagnostics, which ends with the underlying text.
    pub fn message(&self) -> (r: String)
        ensures
            r@ == message_of(*self),
    {
        match self {
            LayoutError::Spawn { reason } => {
                let mut m = String::from_str("could not run the layout engine: ");
                m.append(reason.as_str());
                m
            },
            LayoutError::Exited { stderr } => {
                let mut m = String::from_str("the layout engine failed: ");
                m.append(stderr.as_str());
                m
            },
        }
    }
}

/// The outcome of a finished run of the layout engine: its output where it
/// exited with success, else an error holding its error stream.
pub fn layout_outcome(success: bool, stdout: String, stderr: String) -> (r: Result<
    String,
    LayoutError,
>)
    ensures
        success ==> r == Ok::<String, LayoutError>(stdout),
        !success ==> r == Err::<String, LayoutError>(LayoutError::Exited { stderr }),
{
    if success {
        Ok(stdout)
    } else {
        Err(LayoutError::Exited { stderr })
    }
}

} // verus!
