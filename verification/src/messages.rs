//! The message vocabulary of the protocol between the display side and the
//! processing engine: the strongly typed commands the engine accepts, the
//! tags both sides put on the wire, and the record shapes of the inbound
//! messages.

use vstd::prelude::*;

verus! {

/// One request to the processing engine. Commands are stateless: each is
/// evaluated against the current source image store, never against a
/// previously transformed result.
pub enum Command {
    /// Replace the stored source image. `origin` carries the display
    /// placement (two 64-bit patterns) and is passed through untouched.
    NewImage { image_data: Vec<u8>, width: u32, origin: (u64, u64) },
    /// Emit the inverted image when enabled, the pristine image when not.
    Invert { enabled: bool },
    /// Emit the image run through a 256-entry channel lookup table holding
    /// the sampled power-law curve.
    Gamma { lut: Vec<u8> },
    /// Emit the image blurred with the given kernel size.
    BoxBlur { kernel_size: u32 },
    /// Emit the edge map for the given threshold.
    SobelEdgeDetector { threshold: u8 },
}

/// Mathematical content of a command: the same tagged value with the byte
/// payloads abstracted to sequences.
pub ghost enum CommandModel {
    NewImage { data: Seq<u8>, width: u32, origin: (u64, u64) },
    Invert { enabled: bool },
    Gamma { lut: Seq<u8> },
    BoxBlur { kernel_size: u32 },
    SobelEdgeDetector { threshold: u8 },
}

impl View for Command {
    type V = CommandModel;

    open spec fn view(&self) -> CommandModel {
        match self {
            Command::NewImage { image_data, width, origin } => CommandModel::NewImage {
                data: image_data@,
                width: *width,
                origin: *origin,
            },
            Command::Invert { enabled } => CommandModel::Invert { enabled: *enabled },
            Command::Gamma { lut } => CommandModel::Gamma { lut: lut@ },
            Command::BoxBlur { kernel_size } => CommandModel::BoxBlur {
                kernel_size: *kernel_size,
            },
            Command::SobelEdgeDetector { threshold } => CommandModel::SobelEdgeDetector {
                threshold: *threshold,
            },
        }
    }
}

impl Command {
    /// The tag this command carries on the wire.
    pub open spec fn tag_view(&self) -> Seq<char> {
        match self {
            Command::NewImage { .. } => "new image"@,
            Command::Invert { .. } => "invert"@,
            Command::Gamma { .. } => "gamma"@,
            Command::BoxBlur { .. } => "box blur"@,
            Command::SobelEdgeDetector { .. } => "sobel edge detector"@,
        }
    }

    pub fn as_str(&self) -> (r: &'static str)
        ensures
            r@ == self.tag_view(),
    {
        match self {
            Command::NewImage { .. } => "new image",
            Command::Invert { .. } => "invert",
            Command::Gamma { .. } => "gamma",
            Command::BoxBlur { .. } => "box blur",
            Command::SobelEdgeDetector { .. } => "sobel edge detector",
        }
    }
}

/// The tag of a message the engine sends back to the display side.
#[derive(Clone, Copy, PartialEq, Eq, Structural, Debug)]
pub enum WorkerResponseMessage {
    Initialized,
    DisplayOriginalImage,
    Invert,
    BoxBlur,
    Gamma,
    SobelEdgeDetector,
}

impl WorkerResponseMessage {
    /// The tag this response carries on the wire.
    pub open spec fn tag_view(&self) -> Seq<char> {
        match self {
            WorkerResponseMessage::Initialized => "worker has finished initializing"@,
            WorkerResponseMessage::DisplayOriginalImage => "original image"@,
            WorkerResponseMessage::Invert => "invert"@,
            WorkerResponseMessage::BoxBlur => "box blur"@,
            WorkerResponseMessage::Gamma => "gamma"@,
            WorkerResponseMessage::SobelEdgeDetector => "sobel edge detector"@,
        }
    }

    pub fn as_str(&self) -> (r: &'static str)
        ensures
            r@ == self.tag_view(),
    {
        match self {
            WorkerResponseMessage::Initialized => "worker has finished initializing",
            WorkerResponseMessage::DisplayOriginalImage => "original image",
            WorkerResponseMessage::Invert => "invert",
            WorkerResponseMessage::BoxBlur => "box blur",
            WorkerResponseMessage::Gamma => "gamma",
            WorkerResponseMessage::SobelEdgeDetector => "sobel edge detector",
        }
    }

    /// Parses a wire tag. Returns the matching response kind, or the
    /// offending input when no tag matches.
    pub fn from_str(s: &str) -> (r: Result<WorkerResponseMessage, String>)
        ensures
            match r {
                Ok(m) => m.tag_view() == s@,
                Err(e) => e@ == s@,
            },
            s@ == "worker has finished initializing"@ ==> r == Ok::<WorkerResponseMessage, String>(
                WorkerResponseMessage::Initialized,
            ),
            s@ == "original image"@ ==> r == Ok::<WorkerResponseMessage, String>(
                WorkerResponseMessage::DisplayOriginalImage,
            ),
            s@ == "invert"@ ==> r == Ok::<WorkerResponseMessage, String>(
                WorkerResponseMessage::Invert,
            ),
            s@ == "box blur"@ ==> r == Ok::<WorkerResponseMessage, String>(
                WorkerResponseMessage::BoxBlur,
            ),
            s@ == "gamma"@ ==> r == Ok::<WorkerResponseMessage, String>(
                WorkerResponseMessage::Gamma,
            ),
            s@ == "sobel edge detector"@ ==> r == Ok::<WorkerResponseMessage, String>(
                WorkerResponseMessage::SobelEdgeDetector,
            ),
    {
        proof {
            reveal_strlit("worker has finished initializing");
            reveal_strlit("original image");
            reveal_strlit("invert");
            reveal_strlit("box blur");
            reveal_strlit("gamma");
            reveal_strlit("sobel edge detector");
        }
        let owned: String = s.to_owned();
        proof {
            assert("worker has finished initializing"@.len() == 32);
            assert("original image"@.len() == 14);
            assert("invert"@.len() == 6);
            assert("box blur"@.len() == 8);
            assert("gamma"@.len() == 5);
            assert("sobel edge detector"@.len() == 19);
        }
        if owned == "worker has finished initializing".to_owned() {
            Ok(WorkerResponseMessage::Initialized)
        } else if owned == "original image".to_owned() {
            Ok(WorkerResponseMessage::DisplayOriginalImage)
        } else if owned == "invert".to_owned() {
            Ok(WorkerResponseMessage::Invert)
        } else if owned == "box blur".to_owned() {
            Ok(WorkerResponseMessage::BoxBlur)
        } else if owned == "gamma".to_owned() {
            Ok(WorkerResponseMessage::Gamma)
        } else if owned == "sobel edge detector".to_owned() {
            Ok(WorkerResponseMessage::SobelEdgeDetector)
        } else {
            Err(owned)
        }
    }
}

/// Inbound message that loads a new source image. The dimensions travel as
/// plain integers: a pixel buffer never has a fractional extent.
pub struct NewImageMessage {
    pub message: String,
    pub image_data: Vec<u8>,
    pub new_width: u32,
    pub new_height: u32,
}

impl NewImageMessage {
    pub fn new(message: String, image_data: Vec<u8>, new_width: u32, new_height: u32) -> (r:
        NewImageMessage)
        ensures
            r.message@ == message@,
            r.image_data@ == image_data@,
            r.new_width == new_width,
            r.new_height == new_height,
    {
        NewImageMessage { message, image_data, new_width, new_height }
    }
}

/// Inbound message that toggles the invert transform.
pub struct InvertMessage {
    pub message: String,
    pub invert: bool,
}

impl InvertMessage {
    pub fn new(message: String, invert: bool) -> (r: InvertMessage)
        ensures
            r.message@ == message@,
            r.invert == invert,
    {
        InvertMessage { message, invert }
    }
}

/// Inbound message that requests a box blur.
pub struct BoxBlurMessage {
    pub message: String,
    pub kernel_size: u32,
}

impl BoxBlurMessage {
    pub fn new(message: String, kernel_size: u32) -> (r: BoxBlurMessage)
        ensures
            r.message@ == message@,
            r.kernel_size == kernel_size,
    {
        BoxBlurMessage { message, kernel_size }
    }
}

/// Inbound message that requests edge detection.
pub struct SobelEdgeDetectionMessage {
    pub message: String,
    pub threshold: u32,
}

impl SobelEdgeDetectionMessage {
    pub fn new(message: String, threshold: u32) -> (r: SobelEdgeDetectionMessage)
        ensures
            r.message@ == message@,
            r.threshold == threshold,
    {
        SobelEdgeDetectionMessage { message, threshold }
    }
}

} // verus!
