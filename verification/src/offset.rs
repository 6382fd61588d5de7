//! Addresses inside a module image: where the image lies, where a signature
//! is found in it, and the arithmetic that leads from a match to a target.

use crate::pattern::{find_outcome, find_pattern, parse_spec, PatternSearchError};
use vstd::prelude::*;
use vstd::string::StringSliceAdditionalSpecFns;

verus! {

/// The unsigned 32-bit little-endian number in the four bytes from `at` on.
pub open spec fn le_u32(bytes: Seq<u8>, at: int) -> int {
    bytes[at] + 0x100 * bytes[at + 1] + 0x1_0000 * bytes[at + 2] + 0x100_0000 * bytes[at + 3]
}

/// The signed 32-bit little-endian number in the four bytes from `at` on.
pub open spec fn le_i32(bytes: Seq<u8>, at: int) -> int {
    if le_u32(bytes, at) >= 0x8000_0000 {
        le_u32(bytes, at) - 0x1_0000_0000
    } else {
        le_u32(bytes, at)
    }
}

/// Offset of the field `e_lfanew` in the DOS header of an image.
pub const DOS_NT_HEADERS_FIELD: usize = 0x3c;

/// Offset of the field `SizeOfImage` in the 64-bit NT headers of an image.
pub const NT_SIZE_OF_IMAGE_FIELD: usize = 0x50;

/// Where the NT headers start in an image, if its DOS header says so within
/// the bytes given: the header has to be complete, and the NT headers have
/// to lie in the image up to the end of their size field.
pub open spec fn nt_headers_at(image: Seq<u8>) -> Option<int> {
    if image.len() < DOS_NT_HEADERS_FIELD + 4 {
        None
    } else {
        let at = le_i32(image, DOS_NT_HEADERS_FIELD as int);
        if 0 <= at && at + NT_SIZE_OF_IMAGE_FIELD + 4 <= image.len() {
            Some(at)
        } else {
            None
        }
    }
}

/// The bounds `(base, end)` of the image loaded at `base` whose first bytes
/// are `image`: `end` is `base` plus the size that the image's headers
/// declare. There are none where the base is null, where the headers cannot
/// be read, or where the end is not an address.
pub open spec fn module_bounds(base: usize, image: Seq<u8>) -> Option<(usize, usize)> {
    if base == 0 {
        None
    } else {
        match nt_headers_at(image) {
            None => None,
            Some(at) => {
                let size = le_u32(image, at + NT_SIZE_OF_IMAGE_FIELD);
                if base + size <= usize::MAX {
                    Some((base, (base + size) as usize))
                } else {
                    None
                }
            },
        }
    }
}

fn read_le_u32(bytes: &[u8], at: usize) -> (value: u32)
    requires
        at + 4 <= bytes@.len(),
    ensures
        value == le_u32(bytes@, at as int),
{
    let b0: u32 = bytes[at] as u32;
    let b1: u32 = bytes[at + 1] as u32;
    let b2: u32 = bytes[at + 2] as u32;
    let b3: u32 = bytes[at + 3] as u32;
    b0 + 0x100 * b1 + 0x1_0000 * b2 + 0x100_0000 * b3
}

/// Locates the image loaded at `base`, reading its size from the headers in
/// `image`, the bytes that start at `base`.
pub fn get_module(base: usize, image: &[u8]) -> (bounds: Result<(usize, usize), PatternSearchError>)
    ensures
        bounds == match module_bounds(base, image@) {
            Some(b) => Ok::<(usize, usize), PatternSearchError>(b),
            None => Err::<(usize, usize), PatternSearchError>(PatternSearchError::OutOfRange),
        },
{
    if base == 0 {
        return Err(PatternSearchError::OutOfRange);
    }
    if image.len() < DOS_NT_HEADERS_FIELD + 4 {
        return Err(PatternSearchError::OutOfRange);
    }
    let raw: u32 = read_le_u32(image, DOS_NT_HEADERS_FIELD);
    if raw >= 0x8000_0000 {
        return Err(PatternSearchError::OutOfRange);
    }
    let at: usize = raw as usize;
    if image.len() < NT_SIZE_OF_IMAGE_FIELD + 4 || at > image.len() - NT_SIZE_OF_IMAGE_FIELD - 4 {
        return Err(PatternSearchError::OutOfRange);
    }
    let size: u32 = read_le_u32(image, at + NT_SIZE_OF_IMAGE_FIELD);
    if size as usize > usize::MAX - base {
        return Err(PatternSearchError::OutOfRange);
    }
    Ok((base, base + size as usize))
}

/// An address in the host process.
#[derive(Debug, Copy, Clone, Eq, PartialEq, Structural)]
pub struct Offset(usize);

impl View for Offset {
    type V = usize;

    closed spec fn view(&self) -> usize {
        self.0
    }
}

impl Offset {
    /// The offset at `address`.
    pub fn new(address: usize) -> (offset: Self)
        ensures
            offset@ == address,
    {
        Offset(address)
    }

    /// Finds the signature `pattern` in the module that lies from
    /// `module_start` to `module_end`, whose bytes from `module_start` on
    /// are `memory`, and returns the address of the first match. The search
    /// covers one byte more than the module's extent.
    pub fn from_signature(
        module_start: usize,
        module_end: usize,
        memory: &[u8],
        pattern: &str,
    ) -> (found: Result<Self, PatternSearchError>)
        requires
            module_start <= module_end,
            module_end - module_start < memory@.len(),
            module_start + memory@.len() <= usize::MAX,
            parse_spec(pattern.spec_bytes()) matches Some(p) ==> p.len() > 0,
        ensures
            find_outcome(
                pattern.spec_bytes(),
                memory@.subrange(0, module_end - module_start + 1),
                match found {
                    Ok(offset) => Ok(offset@ - module_start),
                    Err(e) => Err(e),
                },
            ),
    {
        match find_pattern(memory, module_end - module_start, pattern) {
            Ok(at) => Ok(Offset::new(module_start + at)),
            Err(e) => Err(e),
        }
    }

    /// The address `offset` bytes further on.
    pub fn as_adjusted(&self, offset: usize) -> (moved: Offset)
        requires
            self@ + offset <= usize::MAX,
        ensures
            moved@ == self@ + offset,
    {
        Offset(self.0 + offset)
    }

    /// The address `offset` bytes back.
    pub fn as_nadjusted(&self, offset: usize) -> (moved: Offset)
        requires
            offset <= self@,
        ensures
            moved@ == self@ - offset,
    {
        Offset(self.0 - offset)
    }

    /// The target of the relative instruction at this address: the
    /// instruction is `instruction_length` bytes long and ends in a signed
    /// 32-bit displacement, which counts from the instruction's end.
    /// `memory` holds the bytes from `memory_start` on.
    pub fn as_relative(&self, memory_start: usize, memory: &[u8], instruction_length: usize) -> (target:
        Offset)
        requires
            relative_defined(self@, memory_start, memory@, instruction_length),
        ensures
            target@ == relative_target(self@, memory_start, memory@, instruction_length),
    {
        let end: usize = self.0 + instruction_length;
        let raw: u32 = read_le_u32(memory, end - 4 - memory_start);
        if raw >= 0x8000_0000 {
            let back: u32 = 0xffff_ffff - raw + 1;
            Offset(end - back as usize)
        } else {
            Offset(end + raw as usize)
        }
    }

    /// The target of the relative instruction at this address, where it has
    /// one: the instruction's displacement has to lie in `memory`, and the
    /// target has to be an address.
    pub fn checked_relative(
        &self,
        memory_start: usize,
        memory: &[u8],
        instruction_length: usize,
    ) -> (target: Option<Offset>)
        ensures
            match target {
                Some(t) => relative_defined(self@, memory_start, memory@, instruction_length)
                    && t@ == relative_target(self@, memory_start, memory@, instruction_length),
                None => !relative_defined(self@, memory_start, memory@, instruction_length),
            },
    {
        if instruction_length < 4 || instruction_length > usize::MAX - self.0 {
            return None;
        }
        let end: usize = self.0 + instruction_length;
        if memory.len() > usize::MAX - memory_start || end < memory_start {
            return None;
        }
        let within: usize = end - memory_start;
        if within < 4 || within > memory.len() {
            return None;
        }
        let raw: u32 = read_le_u32(memory, within - 4);
        if raw >= 0x8000_0000 {
            let back: u32 = 0xffff_ffff - raw + 1;
            if back as usize > end {
                return None;
            }
        } else if raw as usize > usize::MAX - end {
            return None;
        }
        Some(self.as_relative(memory_start, memory, instruction_length))
    }

    /// The address as a number.
    pub fn as_ptr(&self) -> (address: usize)
        ensures
            address == self@,
    {
        self.0
    }

    /// The address relative to the start of its module.
    pub fn as_offset(&self, module_start: usize) -> (relative: usize)
        requires
            module_start <= self@,
        ensures
            relative == self@ - module_start,
    {
        self.0 - module_start
    }
}

/// Whether the relative instruction at `address` has a target: it is long
/// enough to hold a displacement, the displacement lies in `memory`, which
/// holds the bytes from `memory_start` on, and the target is an address.
pub open spec fn relative_defined(
    address: usize,
    memory_start: usize,
    memory: Seq<u8>,
    instruction_length: usize,
) -> bool {
    &&& instruction_length >= 4
    &&& memory_start + 4 <= address + instruction_length <= memory_start + memory.len()
        <= usize::MAX
    &&& 0 <= relative_target(address, memory_start, memory, instruction_length) <= usize::MAX
}

/// The address that a relative instruction at `address` refers to: the end of
/// the instruction plus the signed displacement in its last four bytes.
pub open spec fn relative_target(
    address: usize,
    memory_start: usize,
    memory: Seq<u8>,
    instruction_length: usize,
) -> int {
    address + instruction_length + le_i32(memory, address + instruction_length - 4 - memory_start)
}

} // verus!
