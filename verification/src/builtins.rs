//! The builtins of the language: the functions, modules and values that
//! are there before any user code.
//!
//! The order of the builtins is load-bearing: the members of each builtin
//! module, and the builtins of the global scope, stand side by side, so that
//! each set is a range of indices.

use vstd::prelude::*;

verus! {

/// A compiler builtin.
#[derive(Clone, Copy, Debug, PartialEq, Eq, Hash, Structural)]
pub enum Builtin {
    // Global
    Blockhash,
    Blobhash,
    Gasleft,
    Selfdestruct,
    Assert,
    Require,
    RequireMsg,
    Revert,
    RevertMsg,
    AddMod,
    MulMod,
    Keccak256,
    Sha256,
    Ripemd160,
    EcRecover,
    Block,
    Msg,
    Tx,
    Abi,
    // Contract
    This,
    Super,
    // `block`
    BlockCoinbase,
    BlockTimestamp,
    BlockDifficulty,
    BlockPrevrandao,
    BlockNumber,
    BlockGaslimit,
    BlockChainid,
    BlockBasefee,
    BlockBlobbasefee,
    // `msg`
    MsgSender,
    MsgGas,
    MsgValue,
    MsgData,
    MsgSig,
    // `tx`
    TxOrigin,
    TxGasPrice,
    // `abi`
    AbiEncode,
    AbiEncodePacked,
    AbiEncodeWithSelector,
    AbiEncodeCall,
    AbiEncodeWithSignature,
    AbiDecode,
    // Members of values and types
    AddressBalance,
    AddressCode,
    AddressCodehash,
    AddressCall,
    AddressDelegatecall,
    AddressStaticcall,
    AddressPayableTransfer,
    AddressPayableSend,
    FixedBytesLength,
    ArrayLength,
    ErrorSelector,
    EventSelector,
    ContractCreationCode,
    ContractRuntimeCode,
    ContractName,
    InterfaceId,
    TypeMin,
    TypeMax,
    UdvtWrap,
    UdvtUnwrap,
    StringConcat,
    BytesConcat,
}

/// How many builtins there are.
pub const BUILTIN_COUNT: usize = 65;

/// The index of the first builtin of the range.
pub const FIRST_GLOBAL: usize = 0;

/// The index behind the last builtin of the range.
pub const LAST_GLOBAL: usize = 19;

/// The index of the first builtin of the range.
pub const FIRST_BLOCK: usize = 21;

/// The index behind the last builtin of the range.
pub const LAST_BLOCK: usize = 30;

/// The index of the first builtin of the range.
pub const FIRST_MSG: usize = 30;

/// The index behind the last builtin of the range.
pub const LAST_MSG: usize = 35;

/// The index of the first builtin of the range.
pub const FIRST_TX: usize = 35;

/// The index behind the last builtin of the range.
pub const LAST_TX: usize = 37;

/// The index of the first builtin of the range.
pub const FIRST_ABI: usize = 37;

/// The index behind the last builtin of the range.
pub const LAST_ABI: usize = 43;

impl Builtin {
    /// How many builtins there are.
    pub const COUNT: usize = BUILTIN_COUNT;

    /// The index of the builtin: its place in the order of the builtins,
    /// counted from zero.
    pub open spec fn spec_index(self) -> int {
        match self {
            Builtin::Blockhash => 0,
            Builtin::Blobhash => 1,
            Builtin::Gasleft => 2,
            Builtin::Selfdestruct => 3,
            Builtin::Assert => 4,
            Builtin::Require => 5,
            Builtin::RequireMsg => 6,
            Builtin::Revert => 7,
            Builtin::RevertMsg => 8,
            Builtin::AddMod => 9,
            Builtin::MulMod => 10,
            Builtin::Keccak256 => 11,
            Builtin::Sha256 => 12,
            Builtin::Ripemd160 => 13,
            Builtin::EcRecover => 14,
            Builtin::Block => 15,
            Builtin::Msg => 16,
            Builtin::Tx => 17,
            Builtin::Abi => 18,
            Builtin::This => 19,
            Builtin::Super => 20,
            Builtin::BlockCoinbase => 21,
            Builtin::BlockTimestamp => 22,
            Builtin::BlockDifficulty => 23,
            Builtin::BlockPrevrandao => 24,
            Builtin::BlockNumber => 25,
            Builtin::BlockGaslimit => 26,
            Builtin::BlockChainid => 27,
            Builtin::BlockBasefee => 28,
            Builtin::BlockBlobbasefee => 29,
            Builtin::MsgSender => 30,
            Builtin::MsgGas => 31,
            Builtin::MsgValue => 32,
            Builtin::MsgData => 33,
            Builtin::MsgSig => 34,
            Builtin::TxOrigin => 35,
            Builtin::TxGasPrice => 36,
            Builtin::AbiEncode => 37,
            Builtin::AbiEncodePacked => 38,
            Builtin::AbiEncodeWithSelector => 39,
            Builtin::AbiEncodeCall => 40,
            Builtin::AbiEncodeWithSignature => 41,
            Builtin::AbiDecode => 42,
            Builtin::AddressBalance => 43,
            Builtin::AddressCode => 44,
            Builtin::AddressCodehash => 45,
            Builtin::AddressCall => 46,
            Builtin::AddressDelegatecall => 47,
            Builtin::AddressStaticcall => 48,
            Builtin::AddressPayableTransfer => 49,
            Builtin::AddressPayableSend => 50,
            Builtin::FixedBytesLength => 51,
            Builtin::ArrayLength => 52,
            Builtin::ErrorSelector => 53,
            Builtin::EventSelector => 54,
            Builtin::ContractCreationCode => 55,
            Builtin::ContractRuntimeCode => 56,
            Builtin::ContractName => 57,
            Builtin::InterfaceId => 58,
            Builtin::TypeMin => 59,
            Builtin::TypeMax => 60,
            Builtin::UdvtWrap => 61,
            Builtin::UdvtUnwrap => 62,
            Builtin::StringConcat => 63,
            Builtin::BytesConcat => 64,
        }
    }

    /// The builtin module that the builtin is a member of, if it is one.
    pub open spec fn spec_owner(self) -> Option<Builtin> {
        match self {
            Builtin::BlockCoinbase
            | Builtin::BlockTimestamp
            | Builtin::BlockDifficulty
            | Builtin::BlockPrevrandao
            | Builtin::BlockNumber
            | Builtin::BlockGaslimit
            | Builtin::BlockChainid
            | Builtin::BlockBasefee
            | Builtin::BlockBlobbasefee => Some(Builtin::Block),
            Builtin::MsgSender
            | Builtin::MsgGas
            | Builtin::MsgValue
            | Builtin::MsgData
            | Builtin::MsgSig => Some(Builtin::Msg),
            Builtin::TxOrigin
            | Builtin::TxGasPrice => Some(Builtin::Tx),
            Builtin::AbiEncode
            | Builtin::AbiEncodePacked
            | Builtin::AbiEncodeWithSelector
            | Builtin::AbiEncodeCall
            | Builtin::AbiEncodeWithSignature
            | Builtin::AbiDecode => Some(Builtin::Abi),
            _ => None,
        }
    }

    /// The range of indices in which the members of the builtin stand:
    /// where it starts and where it ends. `None` for a builtin that has no
    /// members.
    pub open spec fn spec_members(self) -> Option<(int, int)> {
        match self {
            Builtin::Block => Some((FIRST_BLOCK as int, LAST_BLOCK as int)),
            Builtin::Msg => Some((FIRST_MSG as int, LAST_MSG as int)),
            Builtin::Tx => Some((FIRST_TX as int, LAST_TX as int)),
            Builtin::Abi => Some((FIRST_ABI as int, LAST_ABI as int)),
            _ => None,
        }
    }

    /// The name of the builtin, as source code writes it.
    pub open spec fn spec_name(self) -> Seq<char> {
        match self {
            Builtin::Blockhash => "blockhash"@,
            Builtin::Blobhash => "blobhash"@,
            Builtin::Gasleft => "gasleft"@,
            Builtin::Selfdestruct => "selfdestruct"@,
            Builtin::Assert => "assert"@,
            Builtin::Require => "require"@,
            Builtin::RequireMsg => "require"@,
            Builtin::Revert => "revert"@,
            Builtin::RevertMsg => "revert"@,
            Builtin::AddMod => "addmod"@,
            Builtin::MulMod => "mulmod"@,
            Builtin::Keccak256 => "keccak256"@,
            Builtin::Sha256 => "sha256"@,
            Builtin::Ripemd160 => "ripemd160"@,
            Builtin::EcRecover => "ecrecover"@,
            Builtin::Block => "block"@,
            Builtin::Msg => "msg"@,
            Builtin::Tx => "tx"@,
            Builtin::Abi => "abi"@,
            Builtin::This => "this"@,
            Builtin::Super => "super"@,
            Builtin::BlockCoinbase => "coinbase"@,
            Builtin::BlockTimestamp => "timestamp"@,
            Builtin::BlockDifficulty => "difficulty"@,
            Builtin::BlockPrevrandao => "prevrandao"@,
            Builtin::BlockNumber => "number"@,
            Builtin::BlockGaslimit => "gaslimit"@,
            Builtin::BlockChainid => "chainid"@,
            Builtin::BlockBasefee => "basefee"@,
            Builtin::BlockBlobbasefee => "blobbasefee"@,
            Builtin::MsgSender => "sender"@,
            Builtin::MsgGas => "gas"@,
            Builtin::MsgValue => "value"@,
            Builtin::MsgData => "data"@,
            Builtin::MsgSig => "sig"@,
            Builtin::TxOrigin => "origin"@,
            Builtin::TxGasPrice => "gasprice"@,
            Builtin::AbiEncode => "encode"@,
            Builtin::AbiEncodePacked => "encodePacked"@,
            Builtin::AbiEncodeWithSelector => "encodeWithSelector"@,
            Builtin::AbiEncodeCall => "encodeCall"@,
            Builtin::AbiEncodeWithSignature => "encodeWithSignature"@,
            Builtin::AbiDecode => "decode"@,
            Builtin::AddressBalance => "balance"@,
            Builtin::AddressCode => "code"@,
            Builtin::AddressCodehash => "codehash"@,
            Builtin::AddressCall => "call"@,
            Builtin::AddressDelegatecall => "delegatecall"@,
            Builtin::AddressStaticcall => "staticcall"@,
            Builtin::AddressPayableTransfer => "transfer"@,
            Builtin::AddressPayableSend => "send"@,
            Builtin::FixedBytesLength => "length"@,
            Builtin::ArrayLength => "length"@,
            Builtin::ErrorSelector => "selector"@,
            Builtin::EventSelector => "selector"@,
            Builtin::ContractCreationCode => "creationCode"@,
            Builtin::ContractRuntimeCode => "runtimeCode"@,
            Builtin::ContractName => "name"@,
            Builtin::InterfaceId => "interfaceId"@,
            Builtin::TypeMin => "min"@,
            Builtin::TypeMax => "max"@,
            Builtin::UdvtWrap => "wrap"@,
            Builtin::UdvtUnwrap => "unwrap"@,
            Builtin::StringConcat => "concat"@,
            Builtin::BytesConcat => "concat"@,
        }
    }

    /// Returns the name of the builtin.
    pub fn name(self) -> (name: &'static str)
        ensures
            name@ == self.spec_name(),
    {
        match self {
            Builtin::Blockhash => "blockhash",
            Builtin::Blobhash => "blobhash",
            Builtin::Gasleft => "gasleft",
            Builtin::Selfdestruct => "selfdestruct",
            Builtin::Assert => "assert",
            Builtin::Require => "require",
            Builtin::RequireMsg => "require",
            Builtin::Revert => "revert",
            Builtin::RevertMsg => "revert",
            Builtin::AddMod => "addmod",
            Builtin::MulMod => "mulmod",
            Builtin::Keccak256 => "keccak256",
            Builtin::Sha256 => "sha256",
            Builtin::Ripemd160 => "ripemd160",
            Builtin::EcRecover => "ecrecover",
            Builtin::Block => "block",
            Builtin::Msg => "msg",
            Builtin::Tx => "tx",
            Builtin::Abi => "abi",
            Builtin::This => "this",
            Builtin::Super => "super",
            Builtin::BlockCoinbase => "coinbase",
            Builtin::BlockTimestamp => "timestamp",
            Builtin::BlockDifficulty => "difficulty",
            Builtin::BlockPrevrandao => "prevrandao",
            Builtin::BlockNumber => "number",
            Builtin::BlockGaslimit => "gaslimit",
            Builtin::BlockChainid => "chainid",
            Builtin::BlockBasefee => "basefee",
            Builtin::BlockBlobbasefee => "blobbasefee",
            Builtin::MsgSender => "sender",
            Builtin::MsgGas => "gas",
            Builtin::MsgValue => "value",
            Builtin::MsgData => "data",
            Builtin::MsgSig => "sig",
            Builtin::TxOrigin => "origin",
            Builtin::TxGasPrice => "gasprice",
            Builtin::AbiEncode => "encode",
            Builtin::AbiEncodePacked => "encodePacked",
            Builtin::AbiEncodeWithSelector => "encodeWithSelector",
            Builtin::AbiEncodeCall => "encodeCall",
            Builtin::AbiEncodeWithSignature => "encodeWithSignature",
            Builtin::AbiDecode => "decode",
            Builtin::AddressBalance => "balance",
            Builtin::AddressCode => "code",
            Builtin::AddressCodehash => "codehash",
            Builtin::AddressCall => "call",
            Builtin::AddressDelegatecall => "delegatecall",
            Builtin::AddressStaticcall => "staticcall",
            Builtin::AddressPayableTransfer => "transfer",
            Builtin::AddressPayableSend => "send",
            Builtin::FixedBytesLength => "length",
            Builtin::ArrayLength => "length",
            Builtin::ErrorSelector => "selector",
            Builtin::EventSelector => "selector",
            Builtin::ContractCreationCode => "creationCode",
            Builtin::ContractRuntimeCode => "runtimeCode",
            Builtin::ContractName => "name",
            Builtin::InterfaceId => "interfaceId",
            Builtin::TypeMin => "min",
            Builtin::TypeMax => "max",
            Builtin::UdvtWrap => "wrap",
            Builtin::UdvtUnwrap => "unwrap",
            Builtin::StringConcat => "concat",
            Builtin::BytesConcat => "concat",
        }
    }

    /// Returns the index of the builtin.
    pub fn index(self) -> (i: usize)
        ensures
            i == self.spec_index(),
            i < Builtin::COUNT,
    {
        match self {
            Builtin::Blockhash => 0,
            Builtin::Blobhash => 1,
            Builtin::Gasleft => 2,
            Builtin::Selfdestruct => 3,
            Builtin::Assert => 4,
            Builtin::Require => 5,
            Builtin::RequireMsg => 6,
            Builtin::Revert => 7,
            Builtin::RevertMsg => 8,
            Builtin::AddMod => 9,
            Builtin::MulMod => 10,
            Builtin::Keccak256 => 11,
            Builtin::Sha256 => 12,
            Builtin::Ripemd160 => 13,
            Builtin::EcRecover => 14,
            Builtin::Block => 15,
            Builtin::Msg => 16,
            Builtin::Tx => 17,
            Builtin::Abi => 18,
            Builtin::This => 19,
            Builtin::Super => 20,
            Builtin::BlockCoinbase => 21,
            Builtin::BlockTimestamp => 22,
            Builtin::BlockDifficulty => 23,
            Builtin::BlockPrevrandao => 24,
            Builtin::BlockNumber => 25,
            Builtin::BlockGaslimit => 26,
            Builtin::BlockChainid => 27,
            Builtin::BlockBasefee => 28,
            Builtin::BlockBlobbasefee => 29,
            Builtin::MsgSender => 30,
            Builtin::MsgGas => 31,
            Builtin::MsgValue => 32,
            Builtin::MsgData => 33,
            Builtin::MsgSig => 34,
            Builtin::TxOrigin => 35,
            Builtin::TxGasPrice => 36,
            Builtin::AbiEncode => 37,
            Builtin::AbiEncodePacked => 38,
            Builtin::AbiEncodeWithSelector => 39,
            Builtin::AbiEncodeCall => 40,
            Builtin::AbiEncodeWithSignature => 41,
            Builtin::AbiDecode => 42,
            Builtin::AddressBalance => 43,
            Builtin::AddressCode => 44,
            Builtin::AddressCodehash => 45,
            Builtin::AddressCall => 46,
            Builtin::AddressDelegatecall => 47,
            Builtin::AddressStaticcall => 48,
            Builtin::AddressPayableTransfer => 49,
            Builtin::AddressPayableSend => 50,
            Builtin::FixedBytesLength => 51,
            Builtin::ArrayLength => 52,
            Builtin::ErrorSelector => 53,
            Builtin::EventSelector => 54,
            Builtin::ContractCreationCode => 55,
            Builtin::ContractRuntimeCode => 56,
            Builtin::ContractName => 57,
            Builtin::InterfaceId => 58,
            Builtin::TypeMin => 59,
            Builtin::TypeMax => 60,
            Builtin::UdvtWrap => 61,
            Builtin::UdvtUnwrap => 62,
            Builtin::StringConcat => 63,
            Builtin::BytesConcat => 64,
        }
    }

    /// Returns the builtin with the given index, `None` for an index that
    /// no builtin has.
    pub fn from_index(i: usize) -> (builtin: Option<Self>)
        ensures
            builtin is Some <==> i < Builtin::COUNT,
            builtin matches Some(b) ==> b.spec_index() == i,
    {
        if i >= Self::COUNT {
            return None;
        }
        Some(
            if i == 0 {
                Builtin::Blockhash
            } else if i == 1 {
                Builtin::Blobhash
            } else if i == 2 {
                Builtin::Gasleft
            } else if i == 3 {
                Builtin::Selfdestruct
            } else if i == 4 {
                Builtin::Assert
            } else if i == 5 {
                Builtin::Require
            } else if i == 6 {
                Builtin::RequireMsg
            } else if i == 7 {
                Builtin::Revert
            } else if i == 8 {
                Builtin::RevertMsg
            } else if i == 9 {
                Builtin::AddMod
            } else if i == 10 {
                Builtin::MulMod
            } else if i == 11 {
                Builtin::Keccak256
            } else if i == 12 {
                Builtin::Sha256
            } else if i == 13 {
                Builtin::Ripemd160
            } else if i == 14 {
                Builtin::EcRecover
            } else if i == 15 {
                Builtin::Block
            } else if i == 16 {
                Builtin::Msg
            } else if i == 17 {
                Builtin::Tx
            } else if i == 18 {
                Builtin::Abi
            } else if i == 19 {
                Builtin::This
            } else if i == 20 {
                Builtin::Super
            } else if i == 21 {
                Builtin::BlockCoinbase
            } else if i == 22 {
                Builtin::BlockTimestamp
            } else if i == 23 {
                Builtin::BlockDifficulty
            } else if i == 24 {
                Builtin::BlockPrevrandao
            } else if i == 25 {
                Builtin::BlockNumber
            } else if i == 26 {
                Builtin::BlockGaslimit
            } else if i == 27 {
                Builtin::BlockChainid
            } else if i == 28 {
                Builtin::BlockBasefee
            } else if i == 29 {
                Builtin::BlockBlobbasefee
            } else if i == 30 {
                Builtin::MsgSender
            } else if i == 31 {
                Builtin::MsgGas
            } else if i == 32 {
                Builtin::MsgValue
            } else if i == 33 {
                Builtin::MsgData
            } else if i == 34 {
                Builtin::MsgSig
            } else if i == 35 {
                Builtin::TxOrigin
            } else if i == 36 {
                Builtin::TxGasPrice
            } else if i == 37 {
                Builtin::AbiEncode
            } else if i == 38 {
                Builtin::AbiEncodePacked
            } else if i == 39 {
                Builtin::AbiEncodeWithSelector
            } else if i == 40 {
                Builtin::AbiEncodeCall
            } else if i == 41 {
                Builtin::AbiEncodeWithSignature
            } else if i == 42 {
                Builtin::AbiDecode
            } else if i == 43 {
                Builtin::AddressBalance
            } else if i == 44 {
                Builtin::AddressCode
            } else if i == 45 {
                Builtin::AddressCodehash
            } else if i == 46 {
                Builtin::AddressCall
            } else if i == 47 {
                Builtin::AddressDelegatecall
            } else if i == 48 {
                Builtin::AddressStaticcall
            } else if i == 49 {
                Builtin::AddressPayableTransfer
            } else if i == 50 {
                Builtin::AddressPayableSend
            } else if i == 51 {
                Builtin::FixedBytesLength
            } else if i == 52 {
                Builtin::ArrayLength
            } else if i == 53 {
                Builtin::ErrorSelector
            } else if i == 54 {
                Builtin::EventSelector
            } else if i == 55 {
                Builtin::ContractCreationCode
            } else if i == 56 {
                Builtin::ContractRuntimeCode
            } else if i == 57 {
                Builtin::ContractName
            } else if i == 58 {
                Builtin::InterfaceId
            } else if i == 59 {
                Builtin::TypeMin
            } else if i == 60 {
                Builtin::TypeMax
            } else if i == 61 {
                Builtin::UdvtWrap
            } else if i == 62 {
                Builtin::UdvtUnwrap
            } else if i == 63 {
                Builtin::StringConcat
            } else {
                Builtin::BytesConcat
            },
        )
    }

    /// Returns all builtins, in their order.
    pub fn iter() -> (all: Vec<Self>)
        ensures
            all@.len() == Builtin::COUNT,
            forall|i: int| 0 <= i < all@.len() ==> (#[trigger] all@[i]).spec_index() == i,
    {
        Self::make_range_iter(0, Self::COUNT)
    }

    /// Returns the global builtins: those that stand in the global scope.
    pub fn global() -> (globals: Vec<Self>)
        ensures
            globals@.len() == LAST_GLOBAL - FIRST_GLOBAL,
            forall|i: int|
                0 <= i < globals@.len() ==> (#[trigger] globals@[i]).spec_index() == FIRST_GLOBAL + i,
    {
        Self::make_range_iter(FIRST_GLOBAL, LAST_GLOBAL)
    }

    /// Returns the builtin's members, in their order: those of `block`,
    /// `msg`, `tx` and `abi`. `None` for a builtin that has no members.
    pub fn members(self) -> (members: Option<Vec<Self>>)
        ensures
            members is Some <==> self.spec_members() is Some,
            members matches Some(list) ==> {
                let (first, last) = self.spec_members()->0;
                &&& list@.len() == last - first
                &&& forall|i: int|
                    0 <= i < list@.len() ==> (#[trigger] list@[i]).spec_index() == first + i
                &&& forall|i: int| 0 <= i < list@.len() ==> (#[trigger] list@[i]).spec_owner() == Some(self)
            },
    {
        let (first, last) = match self {
            Builtin::Block => (FIRST_BLOCK, LAST_BLOCK),
            Builtin::Msg => (FIRST_MSG, LAST_MSG),
            Builtin::Tx => (FIRST_TX, LAST_TX),
            Builtin::Abi => (FIRST_ABI, LAST_ABI),
            _ => {
                return None;
            },
        };
        let list = Self::make_range_iter(first, last);
        proof {
            assert forall|i: int| 0 <= i < list@.len() implies (#[trigger] list@[i]).spec_owner()
                == Some(self) by {
                law_members_stand_side_by_side(list@[i], self);
            }
        }
        Some(list)
    }

    /// The builtins with the indices of a range, in their order.
    fn make_range_iter(first: usize, last: usize) -> (list: Vec<Self>)
        requires
            first <= last <= Builtin::COUNT,
        ensures
            list@.len() == last - first,
            forall|i: int| 0 <= i < list@.len() ==> (#[trigger] list@[i]).spec_index() == first + i,
    {
        let mut list: Vec<Self> = Vec::new();
        let mut i = first;
        while i < last
            invariant
                first <= i <= last <= Builtin::COUNT,
                list@.len() == i - first,
                forall|k: int| 0 <= k < list@.len() ==> (#[trigger] list@[k]).spec_index() == first + k,
            decreases last - i,
        {
            match Self::from_index(i) {
                Some(builtin) => {
                    list.push(builtin);
                },
                None => {},
            }
            i += 1;
        }
        list
    }
}

/// The index tells builtins apart: two builtins with the same index are the
/// same, the indices fill the range from zero to the count, and no more than
/// 255 builtins are there, so that an index fits in a byte.
pub proof fn law_indices_are_dense(a: Builtin, b: Builtin)
    ensures
        0 <= a.spec_index() < Builtin::COUNT,
        a.spec_index() == b.spec_index() ==> a == b,
        Builtin::COUNT <= 255,
{
}

/// The members of a builtin module stand side by side: a builtin is a member
/// of `block`, `msg`, `tx` or `abi` exactly if its index lies in the range of
/// the members of that module.
pub proof fn law_members_stand_side_by_side(member: Builtin, module: Builtin)
    requires
        module.spec_members() is Some,
    ensures
        ({
            let (first, last) = module.spec_members()->0;
            member.spec_owner() == Some(module) <==> first <= member.spec_index() < last
        }),
{
}

/// The builtins of the global scope are the first ones, up to the builtin
/// modules, and none of them is a member of a module.
pub proof fn law_globals_come_first(builtin: Builtin)
    ensures
        FIRST_GLOBAL == 0,
        LAST_GLOBAL == Builtin::Abi.spec_index() + 1,
        builtin.spec_index() < LAST_GLOBAL ==> builtin.spec_owner() is None,
{
}

} // verus!
