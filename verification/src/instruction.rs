use crate::error::MultiSigWalletError;
use crate::state::Identity;
use vstd::prelude::*;

verus! {

/// One external call, decoded: the opcode selects the operation, the
/// payload carries its parameters.
pub enum MultiSigWalletInstruction {
    CreateWallet { owners: Vec<Identity>, threshold: u64 },
    CreateTransaction { variant: u8, amount: u64, owners: Vec<Identity>, threshold: u64 },
    ConfirmTransaction {},
    RejectTransaction {},
    ExecuteTransaction {},
    CancelTransaction {},
}

/// The mathematical value of a [`MultiSigWalletInstruction`].
#[verifier::ext_equal]
pub ghost enum InstructionView {
    CreateWallet { owners: Seq<Seq<u8>>, threshold: u64 },
    CreateTransaction { variant: u8, amount: u64, owners: Seq<Seq<u8>>, threshold: u64 },
    ConfirmTransaction {},
    RejectTransaction {},
    ExecuteTransaction {},
    CancelTransaction {},
}

impl View for MultiSigWalletInstruction {
    type V = InstructionView;

    open spec fn view(&self) -> InstructionView {
        match self {
            MultiSigWalletInstruction::CreateWallet { owners, threshold } => {
                InstructionView::CreateWallet { owners: owners.deep_view(), threshold: *threshold }
            },
            MultiSigWalletInstruction::CreateTransaction { variant, amount, owners, threshold } => {
                InstructionView::CreateTransaction {
                    variant: *variant,
                    amount: *amount,
                    owners: owners.deep_view(),
                    threshold: *threshold,
                }
            },
            MultiSigWalletInstruction::ConfirmTransaction {  } => {
                InstructionView::ConfirmTransaction {  }
            },
            MultiSigWalletInstruction::RejectTransaction {  } => {
                InstructionView::RejectTransaction {  }
            },
            MultiSigWalletInstruction::ExecuteTransaction {  } => {
                InstructionView::ExecuteTransaction {  }
            },
            MultiSigWalletInstruction::CancelTransaction {  } => {
                InstructionView::CancelTransaction {  }
            },
        }
    }
}

/// The payload that every instruction carries after its opcode byte, in its
/// wire order: kind byte, amount, length-prefixed owner list, threshold.
pub struct MultiSigWalletInstructionPayload {
    pub variant: u8,
    pub amount: u64,
    pub owners: Vec<Identity>,
    pub threshold: u64,
}

/// The mathematical value of a [`MultiSigWalletInstructionPayload`].
#[verifier::ext_equal]
pub ghost struct PayloadView {
    pub variant: u8,
    pub amount: u64,
    pub owners: Seq<Seq<u8>>,
    pub threshold: u64,
}

impl View for MultiSigWalletInstructionPayload {
    type V = PayloadView;

    open spec fn view(&self) -> PayloadView {
        PayloadView {
            variant: self.variant,
            amount: self.amount,
            owners: self.owners.deep_view(),
            threshold: self.threshold,
        }
    }
}

/// The value of eight little-endian bytes.
pub open spec fn le64(s: Seq<u8>) -> int {
    s[0] as int + s[1] as int * 0x100 + s[2] as int * 0x1_0000 + s[3] as int * 0x100_0000 + s[4]
        as int * 0x1_0000_0000 + s[5] as int * 0x100_0000_0000 + s[6] as int * 0x1_0000_0000_0000
        + s[7] as int * 0x100_0000_0000_0000
}

/// The value of four little-endian bytes.
pub open spec fn le32(s: Seq<u8>) -> int {
    s[0] as int + s[1] as int * 0x100 + s[2] as int * 0x1_0000 + s[3] as int * 0x100_0000
}

/// The payload wire format: one kind byte, eight amount bytes, a four-byte
/// owner count followed by that many 32-byte keys, then eight threshold
/// bytes — and nothing after them. Anything else does not parse.
pub open spec fn spec_parse_payload(rest: Seq<u8>) -> Option<PayloadView> {
    if rest.len() < 13 {
        None
    } else {
        let count = le32(rest.subrange(9, 13));
        if rest.len() != 21 + 32 * count {
            None
        } else {
            Some(
                PayloadView {
                    variant: rest[0],
                    amount: le64(rest.subrange(1, 9)) as u64,
                    owners: Seq::new(
                        count as nat,
                        |i: int| rest.subrange(13 + 32 * i, 45 + 32 * i),
                    ),
                    threshold: le64(rest.subrange(13 + 32 * count, 21 + 32 * count)) as u64,
                },
            )
        }
    }
}

/// The instruction wire format: an opcode byte in front of a full payload.
/// Opcodes beyond the six operations, and bytes that do not parse as a
/// payload, are malformed.
pub open spec fn spec_unpack(data: Seq<u8>) -> Result<InstructionView, MultiSigWalletError> {
    if data.len() < 1 {
        Err(MultiSigWalletError::InvalidInstruction)
    } else {
        match spec_parse_payload(data.skip(1)) {
            None => Err(MultiSigWalletError::InvalidInstruction),
            Some(p) => {
                let op = data[0];
                if op == 0 {
                    Ok(InstructionView::CreateWallet { owners: p.owners, threshold: p.threshold })
                } else if op == 1 {
                    Ok(
                        InstructionView::CreateTransaction {
                            variant: p.variant,
                            amount: p.amount,
                            owners: p.owners,
                            threshold: p.threshold,
                        },
                    )
                } else if op == 2 {
                    Ok(InstructionView::ConfirmTransaction {  })
                } else if op == 3 {
                    Ok(InstructionView::RejectTransaction {  })
                } else if op == 4 {
                    Ok(InstructionView::ExecuteTransaction {  })
                } else if op == 5 {
                    Ok(InstructionView::CancelTransaction {  })
                } else {
                    Err(MultiSigWalletError::InvalidInstruction)
                }
            },
        }
    }
}

/// Reads the eight little-endian bytes at `offset`.
fn read_le_u64(data: &[u8], offset: usize) -> (r: u64)
    requires
        offset + 8 <= data@.len(),
    ensures
        r as int == le64(data@.subrange(offset as int, offset as int + 8)),
{
    let b0 = data[offset] as u64;
    let b1 = data[offset + 1] as u64;
    let b2 = data[offset + 2] as u64;
    let b3 = data[offset + 3] as u64;
    let b4 = data[offset + 4] as u64;
    let b5 = data[offset + 5] as u64;
    let b6 = data[offset + 6] as u64;
    let b7 = data[offset + 7] as u64;
    b0 + b1 * 0x100 + b2 * 0x1_0000 + b3 * 0x100_0000 + b4 * 0x1_0000_0000 + b5 * 0x100_0000_0000
        + b6 * 0x1_0000_0000_0000 + b7 * 0x100_0000_0000_0000
}

/// Reads the four little-endian bytes at `offset`.
fn read_le_u32(data: &[u8], offset: usize) -> (r: u32)
    requires
        offset + 4 <= data@.len(),
    ensures
        r as int == le32(data@.subrange(offset as int, offset as int + 4)),
{
    let b0 = data[offset] as u32;
    let b1 = data[offset + 1] as u32;
    let b2 = data[offset + 2] as u32;
    let b3 = data[offset + 3] as u32;
    b0 + b1 * 0x100 + b2 * 0x1_0000 + b3 * 0x100_0000
}

/// Reads the 32-byte key at `offset`.
fn read_identity(data: &[u8], offset: usize) -> (r: Identity)
    requires
        offset + 32 <= data@.len(),
    ensures
        r@ == data@.subrange(offset as int, offset as int + 32),
{
    let total = data.len();
    let mut bytes = [0u8; 32];
    let mut i: usize = 0;
    while i < 32
        invariant
            offset + 32 <= data@.len(),
            total == data@.len(),
            0 <= i <= 32,
            forall|j: int| 0 <= j < i ==> bytes@[j] == data@[offset + j],
        decreases 32 - i,
    {
        bytes[i] = data[offset + i];
        i += 1;
    }
    let r = Identity::new(bytes);
    proof {
        assert(r@ =~= data@.subrange(offset as int, offset as int + 32));
    }
    r
}

impl MultiSigWalletInstructionPayload {
    /// Parses the payload bytes: exactly [`spec_parse_payload`].
    pub fn parse(rest: &[u8]) -> (r: Option<MultiSigWalletInstructionPayload>)
        ensures
            r is Some <==> spec_parse_payload(rest@) is Some,
            r is Some ==> r->Some_0@ == spec_parse_payload(rest@)->Some_0,
    {
        if rest.len() < 13 {
            return None;
        }
        let variant = rest[0];
        let amount = read_le_u64(rest, 1);
        let count32 = read_le_u32(rest, 9);
        let needed: u64 = 21u64 + 32u64 * (count32 as u64);
        if rest.len() as u64 != needed {
            return None;
        }
        let count = count32 as usize;
        let total = rest.len();
        let ghost spec_owners = spec_parse_payload(rest@)->Some_0.owners;
        let mut owners: Vec<Identity> = Vec::new();
        let mut i: usize = 0;
        while i < count
            invariant
                0 <= i <= count,
                count == count32 as int,
                total == rest@.len(),
                rest@.len() == 21 + 32 * (count as int),
                spec_owners == Seq::new(
                    count as nat,
                    |j: int| rest@.subrange(13 + 32 * j, 45 + 32 * j),
                ),
                owners.deep_view() =~= spec_owners.take(i as int),
            decreases count - i,
        {
            let id = read_identity(rest, 13 + 32 * i);
            owners.push(id);
            proof {
                assert(owners.deep_view() =~= spec_owners.take(i as int).push(
                    spec_owners[i as int],
                ));
                assert(spec_owners.take(i as int).push(spec_owners[i as int]) =~= spec_owners.take(
                    i as int + 1,
                ));
            }
            i += 1;
        }
        let threshold = read_le_u64(rest, 13 + 32 * count);
        let payload = MultiSigWalletInstructionPayload { variant, amount, owners, threshold };
        proof {
            assert(spec_owners.take(count as int) =~= spec_owners);
            assert(payload@ =~~= spec_parse_payload(rest@)->Some_0);
        }
        Some(payload)
    }
}

impl MultiSigWalletInstruction {
    /// Decodes an instruction from its wire bytes: exactly [`spec_unpack`].
    /// Malformed bytes are rejected, never trusted.
    pub fn unpack(instruction_data: &[u8]) -> (r: Result<
        MultiSigWalletInstruction,
        MultiSigWalletError,
    >)
        ensures
            ({
                let outcome = spec_unpack(instruction_data@);
                match (r, outcome) {
                    (Ok(ins), Ok(iv)) => ins@ == iv,
                    (Err(actual), Err(expected)) => actual == expected,
                    _ => false,
                }
            }),
    {
        if instruction_data.len() == 0 {
            return Err(MultiSigWalletError::InvalidInstruction);
        }
        let op = instruction_data[0];
        let rest = slice_tail(instruction_data);
        let payload = match MultiSigWalletInstructionPayload::parse(rest) {
            Some(p) => p,
            None => {
                return Err(MultiSigWalletError::InvalidInstruction);
            },
        };
        let r = if op == 0 {
            Ok(
                MultiSigWalletInstruction::CreateWallet {
                    owners: payload.owners,
                    threshold: payload.threshold,
                },
            )
        } else if op == 1 {
            Ok(
                MultiSigWalletInstruction::CreateTransaction {
                    variant: payload.variant,
                    amount: payload.amount,
                    owners: payload.owners,
                    threshold: payload.threshold,
                },
            )
        } else if op == 2 {
            Ok(MultiSigWalletInstruction::ConfirmTransaction {  })
        } else if op == 3 {
            Ok(MultiSigWalletInstruction::RejectTransaction {  })
        } else if op == 4 {
            Ok(MultiSigWalletInstruction::ExecuteTransaction {  })
        } else if op == 5 {
            Ok(MultiSigWalletInstruction::CancelTransaction {  })
        } else {
            Err(MultiSigWalletError::InvalidInstruction)
        };
        proof {
            assert(rest@ =~= instruction_data@.skip(1));
        }
        r
    }
}

/// The slice after its first element.
fn slice_tail(data: &[u8]) -> (r: &[u8])
    requires
        data@.len() >= 1,
    ensures
        r@ == data@.skip(1),
{
    let r = vstd::slice::slice_subrange(data, 1, data.len());
    proof {
        assert(r@ =~= data@.skip(1));
    }
    r
}

} // verus!
