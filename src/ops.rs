use vstd::prelude::*;

verus! {

/// Instructions of the stack machine.
///
/// Each one encodes as an opcode byte followed by a fixed number of operand
/// bytes. A `JumpDest` may declare a label at its own address; a push refers to
/// a label whose address becomes its big-endian immediate operand.
#[derive(Debug)]
pub enum Op {
    Stop,
    Add,
    Pop,
    Jump,
    JumpI,
    JumpDest(Option<String>),
    Push1(String),
    Push2(String),
}

impl Op {
    pub open spec fn spec_opcode(&self) -> u8 {
        match self {
            Op::Stop => 0x00,
            Op::Add => 0x01,
            Op::Pop => 0x50,
            Op::Jump => 0x56,
            Op::JumpI => 0x57,
            Op::JumpDest(_) => 0x5b,
            Op::Push1(_) => 0x60,
            Op::Push2(_) => 0x61,
        }
    }

    /// Number of operand bytes after the opcode.
    pub open spec fn spec_extra_len(&self) -> nat {
        match self {
            Op::Push1(_) => 1,
            Op::Push2(_) => 2,
            _ => 0,
        }
    }

    /// Number of bytes the instruction occupies in the output.
    pub open spec fn size(&self) -> nat {
        1 + self.spec_extra_len()
    }

    /// The label this instruction declares at its own address, if any.
    pub open spec fn declared(&self) -> Option<Seq<char>> {
        match self {
            Op::JumpDest(Some(l)) => Some(l@),
            _ => None,
        }
    }

    /// The label whose address this instruction's operand holds, if any.
    pub open spec fn referenced(&self) -> Option<Seq<char>> {
        match self {
            Op::Push1(l) => Some(l@),
            Op::Push2(l) => Some(l@),
            _ => None,
        }
    }

    /// Whether `address` can be written into the operand bytes.
    pub open spec fn spec_fits(&self, address: nat) -> bool {
        match self {
            Op::Push1(_) => address < 0x100,
            Op::Push2(_) => address < 0x10000,
            _ => true,
        }
    }

    /// The bytes of the instruction with `address` as its operand.
    pub open spec fn encoding(&self, address: nat) -> Seq<u8> {
        match self {
            Op::Push1(_) => seq![self.spec_opcode(), (address % 0x100) as u8],
            Op::Push2(_) => seq![
                self.spec_opcode(),
                (address / 0x100 % 0x100) as u8,
                (address % 0x100) as u8,
            ],
            _ => seq![self.spec_opcode()],
        }
    }

    pub proof fn lemma_encoding_len(&self, address: nat)
        ensures
            self.encoding(address).len() == self.size(),
    {
    }

    pub fn opcode(&self) -> (r: u8)
        ensures
            r == self.spec_opcode(),
    {
        match self {
            Op::Stop => 0x00,
            Op::Add => 0x01,
            Op::Pop => 0x50,
            Op::Jump => 0x56,
            Op::JumpI => 0x57,
            Op::JumpDest(_) => 0x5b,
            Op::Push1(_) => 0x60,
            Op::Push2(_) => 0x61,
        }
    }

    pub fn extra_len(&self) -> (r: u64)
        ensures
            r == self.spec_extra_len(),
    {
        match self {
            Op::Push1(_) => 1,
            Op::Push2(_) => 2,
            _ => 0,
        }
    }

    pub fn label(&self) -> (r: Option<&String>)
        ensures
            match r {
                Some(l) => self.declared() == Some(l@),
                None => self.declared() is None,
            },
    {
        match self {
            Op::JumpDest(Some(l)) => Some(l),
            _ => None,
        }
    }

    pub fn immediate_label(&self) -> (r: Option<&String>)
        ensures
            match r {
                Some(l) => self.referenced() == Some(l@),
                None => self.referenced() is None,
            },
    {
        match self {
            Op::Push1(l) => Some(l),
            Op::Push2(l) => Some(l),
            _ => None,
        }
    }

    pub fn fits(&self, address: u64) -> (r: bool)
        ensures
            r == self.spec_fits(address as nat),
    {
        match self {
            Op::Push1(_) => address < 0x100,
            Op::Push2(_) => address < 0x10000,
            _ => true,
        }
    }

    /// Appends the instruction's bytes to `out`, with `address` as operand.
    pub fn assemble(&self, address: u64, out: &mut Vec<u8>)
        requires
            self.spec_fits(address as nat),
        ensures
            final(out)@ == old(out)@ + self.encoding(address as nat),
    {
        let opcode = self.opcode();
        out.push(opcode);
        match self {
            Op::Push1(_) => {
                out.push((address % 0x100) as u8);
            },
            Op::Push2(_) => {
                out.push((address / 0x100 % 0x100) as u8);
                out.push((address % 0x100) as u8);
            },
            _ => {},
        }
        assert(final(out)@ =~= old(out)@ + self.encoding(address as nat));
    }
}

} // verus!
