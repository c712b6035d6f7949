use vstd::prelude::*;

verus! {

/// Errors found while decoding a Movie Object command word.
#[derive(Debug, Clone, Copy, PartialEq, Eq, Structural)]
pub enum MObjCmdErrorDetails {
    /// The two-bit group field holds no known group.
    UnknownMObjGroup(u8),
    /// The sub-group of a branch command is unknown.
    UnknownBranchSubGroup(u8),
    /// The option of a goto command is unknown.
    UnknownGotoInstruction(u8),
    /// The option of a jump command is unknown.
    UnknownJumpInstruction(u8),
    /// The option of a play command is unknown.
    UnknownPlayInstruction(u8),
    /// The option of a compare command is unknown.
    UnknownCmpInstruction(u8),
    /// The sub-group of a set command is unknown.
    UnknownSetSubGroup(u8),
    /// The option of a set command is unknown.
    UnknownSetInstruction(u8),
    /// The option of a set-system command is unknown.
    UnknownSetSystemInstruction(u8),
}

/// Errors of the Blu-Ray graphics and command decoders.
#[derive(Debug, Clone, Copy, PartialEq, Eq, Structural)]
pub enum BdavErrorDetails {
    /// A graphics segment carried an unknown type byte.
    UnknownPgSegmentType(u8),
    /// A video descriptor carried an unknown frame-rate code.
    UnknownFrameRate(u8),
    /// A composition descriptor carried an unknown state.
    UnknownPgCompositionUnitState(u8),
    /// A button carried a malformed command.
    BadMObjCommand(MObjCmdErrorDetails),
    /// A middle or last object fragment arrived without its first fragment.
    NonStartedPgsObject,
    /// A middle or last interactive composition fragment arrived without its first fragment.
    NonStartedPgsIgComposition,
    /// A text region style carried an unknown text flow.
    UnknownTgTextFlow(u8),
    /// A text region style carried an unknown horizontal alignment.
    UnknownTgHAlign(u8),
    /// A text region style carried an unknown vertical alignment.
    UnknownTgVAlign(u8),
    /// A text region style carried an unknown outline thickness.
    UnknownTgOutlineThickness(u8),
}

/// What went wrong while parsing a packet.
#[derive(Debug, Clone, Copy, PartialEq, Eq, Structural)]
pub enum ErrorDetails {
    /// A read asked for this many bytes beyond the end of its view.
    PacketOverrun(usize),
    /// The first byte of a transport packet was not 0x47.
    LostSync,
    /// The adaptation field length is out of 1..=183, or a flagged field does not fit.
    BadAdaptationHeader,
    /// A PSI section is too short for its header or its CRC.
    BadPsiHeader,
    /// A PES optional header flags a field that does not fit.
    BadPesHeader,
    /// The CRC-32 of a PSI section does not match its trailer.
    PsiCrcMismatch,
    /// An error of the Blu-Ray decoders.
    AppError(BdavErrorDetails),
}

/// A parse error, with the byte offset at which it was detected.
#[derive(Debug, Clone, Copy, PartialEq, Eq, Structural)]
pub struct Error {
    /// Byte offset within the packet.
    pub location: usize,
    /// What went wrong.
    pub details: ErrorDetails,
}

impl Error {
    /// Builds an error at a byte offset.
    pub fn new(location: usize, details: ErrorDetails) -> (r: Error)
        ensures
            r == (Error { location, details }),
    {
        Error { location, details }
    }
}

/// A result that is not a `LostSync` error: only the packet header check reports that.
pub open spec fn no_lost_sync<T>(r: Result<T, Error>) -> bool {
    r is Err ==> r->Err_0.details != ErrorDetails::LostSync
}

} // verus!
