//! Basic blocks as seen by a trace decoder.

use crate::ykcompile::hex_digit;
use vstd::prelude::*;

verus! {

/// A virtual address inside the traced process.
pub type BlockAddr = usize;

/// A trace decoder's notion of a basic block.
#[derive(Debug, Clone, Copy, PartialEq, Eq, Structural)]
pub enum Block {
    /// An address range that captures at least the first byte of every machine
    /// instruction in the block.
    VAddrRange {
        /// Virtual address of the start of the first instruction in this block.
        first_inst: BlockAddr,
        /// Virtual address of any byte of the last instruction in this block.
        last_inst: BlockAddr,
    },
    /// An unknown virtual address range: decoders do not have perfect
    /// knowledge of every block in the address space.
    Unknown,
}

impl Block {
    /// Creates a basic block from the virtual addresses of the start of its
    /// first instruction and of its last instruction.
    pub fn from_vaddr_range(first_inst: BlockAddr, last_inst: BlockAddr) -> (b: Self)
        ensures
            b == (Block::VAddrRange { first_inst, last_inst }),
    {
        Block::VAddrRange { first_inst, last_inst }
    }

    /// Returns `true` if `self` represents an unknown virtual address range.
    pub fn is_unknown(&self) -> (r: bool)
        ensures
            r == (*self is Unknown),
    {
        match self {
            Block::Unknown => true,
            Block::VAddrRange { .. } => false,
        }
    }

    /// If `self` represents a known address range, returns the range,
    /// otherwise `None`.
    pub fn vaddr_range(&self) -> (r: Option<(BlockAddr, BlockAddr)>)
        ensures
            r == match *self {
                Block::VAddrRange { first_inst, last_inst } => Some((first_inst, last_inst)),
                Block::Unknown => None::<(BlockAddr, BlockAddr)>,
            },
    {
        match self {
            Block::VAddrRange { first_inst, last_inst } => Some((*first_inst, *last_inst)),
            Block::Unknown => None,
        }
    }

    /// Renders the block with its addresses in hexadecimal.
    pub fn describe(&self) -> (s: String)
        ensures
            s@ == match *self {
                Block::VAddrRange { first_inst, last_inst } => range_text(first_inst, last_inst),
                Block::Unknown => "UnknownBlock"@,
            },
    {
        match self {
            Block::VAddrRange { first_inst, last_inst } => hex_range(*first_inst, *last_inst),
            Block::Unknown => "UnknownBlock".to_string(),
        }
    }
}

/// The number `n` in hexadecimal, with the digits above nine in lower case
/// and no more digits than it takes.
pub open spec fn lower_hex(n: nat) -> Seq<char>
    decreases n,
{
    if n < 16 {
        seq![hex_digit(n as int)]
    } else {
        lower_hex(n / 16) + seq![hex_digit((n % 16) as int)]
    }
}

/// The text for the range of addresses from `first_inst` to `last_inst`,
/// the last included.
pub open spec fn range_text(first_inst: usize, last_inst: usize) -> Seq<char> {
    "Block("@ + lower_hex(first_inst as nat) + "..="@ + lower_hex(last_inst as nat) + ")"@
}

/// `format!` with two numbers as `{:x}`: std writes each in hexadecimal, in
/// lower case, without a prefix and without leading zeros, between the
/// pieces of text of the format string.
#[verifier::external_body]
fn hex_range(first_inst: usize, last_inst: usize) -> (s: String)
    ensures
        s@ == range_text(first_inst, last_inst),
{
    format!("Block({first_inst:x}..={last_inst:x})")
}

} // verus!
