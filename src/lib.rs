//! Reading MPEG transport streams and their Blu-Ray BDAV variant.
//!
//! The crate decodes 188-byte transport packets, reassembles the payload units that span
//! several packets (PSI tables and PES units), and decodes the Blu-Ray graphics segments and
//! Movie Object commands found in BDAV streams.

mod error;
pub use error::{BdavErrorDetails, Error, ErrorDetails, MObjCmdErrorDetails};

pub mod slice_reader;
pub use slice_reader::SliceReader;

mod crc32;
pub use crc32::crc32_mpeg2_of;

pub mod psi;
pub use psi::{
    Descriptor, ElementaryStreamInfo, ElementaryStreamInfoHeader, PatEntry, Pmt, PmtHeader, Psi,
    PsiBuilder, PsiData, PsiHeader, PsiTableSyntax,
};

pub mod pes;
pub use pes::{Pes, PesHeader, PesOptionalHeader, PesUnitData, PesUnitKind};

pub mod pg;

mod payload_unit;

pub mod parser;
pub use parser::{
    AdaptationField, AdaptationFieldHeader, MpegTsParser, Packet, PacketHeader, Payload,
    PcrTimestamp, TransportScramblingControl,
};

pub mod mobj;

pub mod mobj_asm;

pub mod bdav;
pub use bdav::{BdavPacket, BdavPacketHeader, BdavParser};

pub mod mobj_laws;
