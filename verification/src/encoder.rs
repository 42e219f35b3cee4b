//! From a mnemonic and an addressing mode to the byte of the operation.

use vstd::prelude::*;
use vstd::string::StrSliceExecFns;

verus! {

/// The way in which a processor operation finds its operand.
#[derive(Copy, Clone, Debug, PartialEq, Eq, Hash)]
pub enum AddressingMode {
    Implied,
    /// `dp`
    DirectPage,
    /// `addr`
    Absolute,
    /// `long`
    AbsoluteLong,
    /// `#const`
    Immediate,
    /// `dp,x`
    DpIndexedX,
    /// `addr,x`
    AbsoluteIndexedX,
    /// `addr,y`
    AbsoluteIndexedY,
    /// `long,x`
    AbsoluteLongIndexedX,
    /// `(dp)`
    DpIndirect,
    /// `(dp,x)`
    DpIndexedIndirectX,
    /// `(dp),y`
    DpIndirectIndexedIndexY,
    /// `[dp]`
    DpIndirectLong,
    /// `[dp],y`
    DpIndirectLongIndexedY,
    /// `sr,s`
    StackRelative,
    /// `(sr,s),y`
    SrIndirectIndexedY,
}

/// The byte that encodes `ADC` in each addressing mode that it has.
pub open spec fn adc_opcode(addressing_mode: AddressingMode) -> Option<u8> {
    match addressing_mode {
        AddressingMode::Implied => None,
        AddressingMode::DirectPage => Some(0x65u8),
        AddressingMode::Absolute => Some(0x6Du8),
        AddressingMode::AbsoluteLong => Some(0x6Fu8),
        AddressingMode::Immediate => Some(0x69u8),
        AddressingMode::DpIndexedX => Some(0x75u8),
        AddressingMode::AbsoluteIndexedX => Some(0x7Du8),
        AddressingMode::AbsoluteIndexedY => Some(0x79u8),
        AddressingMode::AbsoluteLongIndexedX => Some(0x7Fu8),
        AddressingMode::DpIndirect => Some(0x72u8),
        AddressingMode::DpIndexedIndirectX => Some(0x61u8),
        AddressingMode::DpIndirectIndexedIndexY => Some(0x71u8),
        AddressingMode::DpIndirectLong => Some(0x67u8),
        AddressingMode::DpIndirectLongIndexedY => Some(0x77u8),
        AddressingMode::StackRelative => Some(0x63u8),
        AddressingMode::SrIndirectIndexedY => Some(0x7Eu8),
    }
}

/// The table of operations: the byte for a mnemonic in an addressing mode,
/// where the processor has that pair.
pub open spec fn opcode_table(name: Seq<char>, addressing_mode: AddressingMode) -> Option<u8> {
    if name == "ADC"@ {
        adc_opcode(addressing_mode)
    } else {
        None
    }
}

/// Whether two texts hold the same characters.
fn same_text(a: &str, b: &str) -> (same: bool)
    ensures
        same == (a@ == b@),
{
    let length = a.unicode_len();
    if length != b.unicode_len() {
        return false;
    }
    let mut i: usize = 0;
    while i < length
        invariant
            i <= length,
            length == a@.len(),
            length == b@.len(),
            forall|k: int| 0 <= k < i ==> a@[k] == b@[k],
        decreases length - i,
    {
        if a.get_char(i) != b.get_char(i) {
            return false;
        }
        i += 1;
    }
    assert(a@ =~= b@);
    true
}

pub fn get_opcode(name: &str, addressing_mode: AddressingMode) -> (opcode: Option<u8>)
    ensures
        opcode == opcode_table(name@, addressing_mode),
{
    if !same_text(name, "ADC") {
        return None;
    }
    match addressing_mode {
        AddressingMode::Implied => None,
        AddressingMode::DirectPage => Some(0x65),
        AddressingMode::Absolute => Some(0x6D),
        AddressingMode::AbsoluteLong => Some(0x6F),
        AddressingMode::Immediate => Some(0x69),
        AddressingMode::DpIndexedX => Some(0x75),
        AddressingMode::AbsoluteIndexedX => Some(0x7D),
        AddressingMode::AbsoluteIndexedY => Some(0x79),
        AddressingMode::AbsoluteLongIndexedX => Some(0x7F),
        AddressingMode::DpIndirect => Some(0x72),
        AddressingMode::DpIndexedIndirectX => Some(0x61),
        AddressingMode::DpIndirectIndexedIndexY => Some(0x71),
        AddressingMode::DpIndirectLong => Some(0x67),
        AddressingMode::DpIndirectLongIndexedY => Some(0x77),
        AddressingMode::StackRelative => Some(0x63),
        AddressingMode::SrIndirectIndexedY => Some(0x7E),
    }
}

} // verus!
