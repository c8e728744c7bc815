//! The command dispatcher and the non-destructive protocol.
//!
//! The store holds the single pristine source image. `NewImage` replaces it
//! (after validating the buffer geometry); every algorithm command reads a
//! clone of it and never mutates it, so each transform starts from the
//! unmodified source, not from a previous result. Algorithm commands against
//! an empty store are silent no-ops.

use vstd::prelude::*;

use crate::blur::{blur_seq, box_blur, spec_normalize_kernel};
use crate::messages::{Command, CommandModel, WorkerResponseMessage};
use crate::pixel::{geometry_ok, valid_geometry, ImageModel, RawImage};
use crate::pointwise::{gamma_seq, gamma_transform, invert, invert_seq};
use crate::sobel::{sobel_edge_detection, sobel_seq};

verus! {

/// Why the dispatcher rejected a command. A rejected command never changes
/// the store.
#[derive(Clone, Copy, PartialEq, Eq, Structural, Debug)]
pub enum DispatchError {
    /// A `NewImage` buffer whose length is not consistent with its width.
    InconsistentGeometry,
    /// A `Gamma` lookup table that does not have exactly 256 entries.
    InvalidGammaTable,
}

/// One result buffer handed back to the display side.
#[derive(Debug)]
pub struct WorkerOutput {
    pub kind: WorkerResponseMessage,
    pub image_data: Vec<u8>,
    pub width: u32,
    pub origin: (u64, u64),
}

/// Mathematical content of a dispatch result: a rejection, silence, or an
/// emitted buffer.
pub ghost enum OutcomeModel {
    Rejected { error: DispatchError },
    NoOutput,
    Output { kind: WorkerResponseMessage, data: Seq<u8>, width: u32, origin: (u64, u64) },
}

/// The dispatch result as its model.
pub open spec fn outcome_view(r: Result<Option<WorkerOutput>, DispatchError>) -> OutcomeModel {
    match r {
        Result::Err(e) => OutcomeModel::Rejected { error: e },
        Result::Ok(None) => OutcomeModel::NoOutput,
        Result::Ok(Some(o)) => OutcomeModel::Output {
            kind: o.kind,
            data: o.image_data@,
            width: o.width,
            origin: o.origin,
        },
    }
}

/// The store after a command: `NewImage` with consistent geometry replaces
/// it; everything else leaves it untouched.
pub open spec fn store_after(m: ImageModel, c: CommandModel) -> ImageModel {
    match c {
        CommandModel::NewImage { data, width, origin } => if valid_geometry(data.len(), width) {
            ImageModel { data, width, origin }
        } else {
            m
        },
        _ => m,
    }
}

/// What a command makes the dispatcher emit, evaluated against the current
/// store. Algorithm commands against an empty store emit nothing; a
/// malformed gamma table on a loaded store is rejected; `Invert` with
/// `enabled == false` emits the pristine bytes themselves, not a
/// twice-inverted derivation.
pub open spec fn outcome_of(m: ImageModel, c: CommandModel) -> OutcomeModel {
    match c {
        CommandModel::NewImage { data, width, origin } => if valid_geometry(data.len(), width) {
            OutcomeModel::NoOutput
        } else {
            OutcomeModel::Rejected { error: DispatchError::InconsistentGeometry }
        },
        CommandModel::Invert { enabled } => if m.data.len() == 0 {
            OutcomeModel::NoOutput
        } else if enabled {
            OutcomeModel::Output {
                kind: WorkerResponseMessage::Invert,
                data: invert_seq(m.data),
                width: m.width,
                origin: m.origin,
            }
        } else {
            OutcomeModel::Output {
                kind: WorkerResponseMessage::DisplayOriginalImage,
                data: m.data,
                width: m.width,
                origin: m.origin,
            }
        },
        CommandModel::Gamma { lut } => if m.data.len() == 0 {
            OutcomeModel::NoOutput
        } else if lut.len() != 256 {
            OutcomeModel::Rejected { error: DispatchError::InvalidGammaTable }
        } else {
            OutcomeModel::Output {
                kind: WorkerResponseMessage::Gamma,
                data: gamma_seq(m.data, lut),
                width: m.width,
                origin: m.origin,
            }
        },
        CommandModel::BoxBlur { kernel_size } => if m.data.len() == 0 {
            OutcomeModel::NoOutput
        } else {
            OutcomeModel::Output {
                kind: WorkerResponseMessage::BoxBlur,
                data: blur_seq(m.data, m.width, spec_normalize_kernel(kernel_size)),
                width: m.width,
                origin: m.origin,
            }
        },
        CommandModel::SobelEdgeDetector { threshold } => if m.data.len() == 0 {
            OutcomeModel::NoOutput
        } else {
            OutcomeModel::Output {
                kind: WorkerResponseMessage::SobelEdgeDetector,
                data: sobel_seq(m.data, m.width, threshold),
                width: m.width,
                origin: m.origin,
            }
        },
    }
}

/// The single-slot holder of the pristine source image, owned by the
/// processing engine and mutated only through `handle_command`.
pub struct ImageStore {
    image: RawImage,
}

impl View for ImageStore {
    type V = ImageModel;

    closed spec fn view(&self) -> ImageModel {
        self.image@
    }
}

impl ImageStore {
    /// The stored buffer's length is always consistent with its width.
    pub open spec fn wf(&self) -> bool {
        valid_geometry(self@.data.len(), self@.width)
    }

    /// A store with no image loaded yet: the empty sentinel.
    pub fn new() -> (r: ImageStore)
        ensures
            r@.data.len() == 0,
            r@.width == 0,
            r@.origin == (0u64, 0u64),
            r.wf(),
    {
        ImageStore { image: RawImage::new(Vec::new(), 0, (0, 0)) }
    }

    /// Processes one command to completion: replaces the store on a valid
    /// `NewImage`, emits a freshly derived buffer for an algorithm command
    /// against a loaded store, stays silent on an empty store, and rejects
    /// malformed input without touching the store.
    pub fn handle_command(&mut self, cmd: Command) -> (r: Result<
        Option<WorkerOutput>,
        DispatchError,
    >)
        requires
            old(self).wf(),
        ensures
            final(self).wf(),
            final(self)@ == store_after(old(self)@, cmd@),
            outcome_view(r) == outcome_of(old(self)@, cmd@),
    {
        match cmd {
            Command::NewImage { image_data, width, origin } => {
                if geometry_ok(image_data.len(), width) {
                    self.image = RawImage::new(image_data, width, origin);
                    Ok(None)
                } else {
                    Err(DispatchError::InconsistentGeometry)
                }
            },
            Command::Invert { enabled } => {
                if self.image.buffer().len() == 0 {
                    return Ok(None);
                }
                let width = self.image.width();
                let origin = self.image.origin();
                let clone = self.image.clone_buffer();
                if enabled {
                    let data = invert(clone, width);
                    Ok(
                        Some(
                            WorkerOutput {
                                kind: WorkerResponseMessage::Invert,
                                image_data: data,
                                width,
                                origin,
                            },
                        ),
                    )
                } else {
                    Ok(
                        Some(
                            WorkerOutput {
                                kind: WorkerResponseMessage::DisplayOriginalImage,
                                image_data: clone,
                                width,
                                origin,
                            },
                        ),
                    )
                }
            },
            Command::Gamma { lut } => {
                if self.image.buffer().len() == 0 {
                    return Ok(None);
                }
                if lut.len() != 256 {
                    return Err(DispatchError::InvalidGammaTable);
                }
                let width = self.image.width();
                let origin = self.image.origin();
                let clone = self.image.clone_buffer();
                let data = gamma_transform(clone, width, &lut);
                Ok(
                    Some(
                        WorkerOutput {
                            kind: WorkerResponseMessage::Gamma,
                            image_data: data,
                            width,
                            origin,
                        },
                    ),
                )
            },
            Command::BoxBlur { kernel_size } => {
                if self.image.buffer().len() == 0 {
                    return Ok(None);
                }
                let width = self.image.width();
                let origin = self.image.origin();
                let clone = self.image.clone_buffer();
                let data = box_blur(clone, width, kernel_size);
                Ok(
                    Some(
                        WorkerOutput {
                            kind: WorkerResponseMessage::BoxBlur,
                            image_data: data,
                            width,
                            origin,
                        },
                    ),
                )
            },
            Command::SobelEdgeDetector { threshold } => {
                if self.image.buffer().len() == 0 {
                    return Ok(None);
                }
                let width = self.image.width();
                let origin = self.image.origin();
                let clone = self.image.clone_buffer();
                let data = sobel_edge_detection(clone, width, threshold);
                Ok(
                    Some(
                        WorkerOutput {
                            kind: WorkerResponseMessage::SobelEdgeDetector,
                            image_data: data,
                            width,
                            origin,
                        },
                    ),
                )
            },
        }
    }
}

/// Algorithm commands never mutate the store: only `NewImage` does.
pub proof fn lemma_algorithms_preserve_store(m: ImageModel, c: CommandModel)
    requires
        !(c is NewImage),
    ensures
        store_after(m, c) == m,
{
}

/// Any algorithm command issued while no image is loaded produces no output
/// and leaves the (empty) store as it is.
pub proof fn lemma_empty_store_noop(m: ImageModel, c: CommandModel)
    requires
        m.data.len() == 0,
        !(c is NewImage),
    ensures
        outcome_of(m, c) == OutcomeModel::NoOutput,
        store_after(m, c) == m,
{
}

/// Loading an image, inverting, then disabling the invert hands back the
/// loaded bytes bit for bit: the pristine image is re-emitted, not derived
/// by inverting twice.
pub proof fn lemma_nondestructive_invert(
    m0: ImageModel,
    data: Seq<u8>,
    width: u32,
    origin: (u64, u64),
)
    requires
        valid_geometry(data.len(), width),
        data.len() > 0,
    ensures
        ({
            let m1 = store_after(m0, CommandModel::NewImage { data, width, origin });
            let m2 = store_after(m1, CommandModel::Invert { enabled: true });
            &&& m1 == (ImageModel { data, width, origin })
            &&& m2 == m1
            &&& outcome_of(m2, CommandModel::Invert { enabled: false })
                == (OutcomeModel::Output {
                kind: WorkerResponseMessage::DisplayOriginalImage,
                data,
                width,
                origin,
            })
        }),
{
}

/// Loading an image and running two gamma transforms in a row, the second
/// with the identity table, hands back the loaded bytes bit for bit: the
/// second transform is derived from the pristine store, not from the first
/// transform's result.
pub proof fn lemma_nondestructive_gamma(
    m0: ImageModel,
    data: Seq<u8>,
    width: u32,
    origin: (u64, u64),
    lut_first: Seq<u8>,
    lut_identity: Seq<u8>,
)
    requires
        valid_geometry(data.len(), width),
        data.len() > 0,
        lut_first.len() == 256,
        lut_identity.len() == 256,
        forall|v: int| 0 <= v < 256 ==> #[trigger] lut_identity[v] == v as u8,
    ensures
        ({
            let m1 = store_after(m0, CommandModel::NewImage { data, width, origin });
            let m2 = store_after(m1, CommandModel::Gamma { lut: lut_first });
            &&& m2 == (ImageModel { data, width, origin })
            &&& outcome_of(m2, CommandModel::Gamma { lut: lut_identity })
                == (OutcomeModel::Output {
                kind: WorkerResponseMessage::Gamma,
                data,
                width,
                origin,
            })
        }),
{
    crate::pointwise::lemma_gamma_identity(data, lut_identity);
}

} // verus!
