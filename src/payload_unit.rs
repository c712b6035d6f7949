use crate::error::{no_lost_sync, Error};
use crate::pes::{pes_accumulating, pes_bytes, Pes};
use crate::psi::PsiBuilder;
use crate::slice_reader::SliceReader;
use vstd::prelude::*;

verus! {

/// A payload unit being reassembled.
#[derive(Debug)]
pub enum PayloadUnit {
    Psi(PsiBuilder),
    Pes(Pes),
}

/// The bytes a unit has received.
pub open spec fn unit_bytes(u: PayloadUnit) -> Seq<u8> {
    match u {
        PayloadUnit::Psi(b) => b.data@,
        PayloadUnit::Pes(p) => pes_bytes(p.data),
    }
}

/// Whether a unit still takes bytes.
pub open spec fn unit_accumulating(u: PayloadUnit) -> bool {
    match u {
        PayloadUnit::Psi(_) => true,
        PayloadUnit::Pes(p) => pes_accumulating(p.data),
    }
}

/// `b` is `a` with only its received bytes changed.
pub open spec fn same_unit(a: PayloadUnit, b: PayloadUnit) -> bool {
    match (a, b) {
        (PayloadUnit::Psi(x), PayloadUnit::Psi(y)) => {
            &&& x.location == y.location
            &&& x.header == y.header
            &&& x.table_syntax == y.table_syntax
            &&& x.prefix@ == y.prefix@
        },
        (PayloadUnit::Pes(x), PayloadUnit::Pes(y)) => {
            &&& x.header == y.header
            &&& x.optional_header == y.optional_header
            &&& x.pts == y.pts
            &&& x.dts == y.dts
            &&& (x.data is Raw) == (y.data is Raw)
        },
        _ => false,
    }
}

impl PayloadUnit {
    /// Appends bytes.
    pub fn extend_from_slice(&mut self, s: &[u8])
        requires
            unit_accumulating(*old(self)),
        ensures
            unit_accumulating(*final(self)),
            same_unit(*old(self), *final(self)),
            unit_bytes(*final(self)) == unit_bytes(*old(self)) + s@,
    {
        match self {
            PayloadUnit::Psi(b) => {
                b.data.extend_from_slice(s);
            },
            PayloadUnit::Pes(p) => {
                p.data.extend_from_slice(s);
            },
        }
    }
}

/// A unit together with the number of bytes it still expects.
#[derive(Debug)]
pub struct PayloadUnitBuilder {
    pub unit: PayloadUnit,
    pub remaining: usize,
}

impl PayloadUnitBuilder {
    /// Well-formed: still accumulating, and a section with table syntax will hold its CRC.
    pub open spec fn wf(&self) -> bool {
        &&& unit_accumulating(self.unit)
        &&& match self.unit {
            PayloadUnit::Psi(b) => b.table_syntax is Some ==> b.data@.len() + self.remaining >= 4,
            PayloadUnit::Pes(_) => true,
        }
    }

    /// Starts a builder that expects `obj_length` more bytes.
    pub fn new(obj: PayloadUnit, obj_length: usize) -> (r: Self)
        ensures
            r.unit == obj,
            r.remaining == obj_length,
    {
        PayloadUnitBuilder { unit: obj, remaining: obj_length }
    }

    /// Moves as many bytes as the unit still expects, at most all that `reader` holds, into
    /// the unit. Returns whether the unit is complete.
    pub fn append(&mut self, reader: &mut SliceReader) -> (r: Result<bool, Error>)
        requires
            old(self).wf(),
        ensures
            no_lost_sync(r),
            ({
                let n = if old(reader).rest().len() <= old(self).remaining {
                    old(reader).rest().len() as int
                } else {
                    old(self).remaining as int
                };
                &&& r == Ok::<bool, Error>(final(self).remaining == 0)
                &&& final(self).remaining == old(self).remaining - n
                &&& unit_bytes(final(self).unit) == unit_bytes(old(self).unit) + old(
                    reader,
                ).rest().subrange(0, n)
                &&& same_unit(old(self).unit, final(self).unit)
                &&& unit_accumulating(final(self).unit)
                &&& SliceReader::advanced(*old(reader), *final(reader), n)
            }),
            final(self).wf(),
    {
        if reader.remaining_len() <= self.remaining {
            self.remaining = self.remaining - reader.remaining_len();
            let s = reader.read_to_end()?;
            self.unit.extend_from_slice(s);
            Ok(self.remaining == 0)
        } else {
            let s = reader.read(self.remaining)?;
            self.unit.extend_from_slice(s);
            self.remaining = 0;
            Ok(true)
        }
    }
}

} // verus!
