use solar_front::builtins::{
    Builtin, FIRST_ABI, FIRST_BLOCK, FIRST_GLOBAL, FIRST_MSG, FIRST_TX, LAST_ABI, LAST_BLOCK,
    LAST_GLOBAL, LAST_MSG, LAST_TX,
};

#[test]
fn indices_are_dense() {
    assert!(Builtin::COUNT <= 255);
    assert_eq!(Builtin::COUNT, 65);
    for i in 0..Builtin::COUNT {
        assert_eq!(Builtin::from_index(i).unwrap().index(), i);
    }
    assert_eq!(Builtin::from_index(Builtin::COUNT), None);
    assert_eq!(Builtin::from_index(usize::MAX), None);
    assert_eq!(Builtin::from_index(0), Some(Builtin::Blockhash));
    assert_eq!(Builtin::from_index(Builtin::COUNT - 1), Some(Builtin::BytesConcat));
    let all = Builtin::iter();
    assert_eq!(all.len(), Builtin::COUNT);
    for (i, builtin) in all.iter().enumerate() {
        assert_eq!(builtin.index(), i);
    }
}

#[test]
fn globals_come_first() {
    let globals = Builtin::global();
    assert_eq!(FIRST_GLOBAL, 0);
    assert_eq!(LAST_GLOBAL, Builtin::Abi.index() + 1);
    assert_eq!(globals.len(), 19);
    assert_eq!(globals[0], Builtin::Blockhash);
    assert_eq!(globals[18], Builtin::Abi);
    assert!(globals.contains(&Builtin::Block));
    assert!(globals.contains(&Builtin::Msg));
    assert!(globals.contains(&Builtin::Tx));
    assert!(!globals.contains(&Builtin::This));
    assert!(!globals.contains(&Builtin::BlockCoinbase));
}

#[test]
fn members_of_the_builtin_modules() {
    assert_eq!(Builtin::Block.members().unwrap(), vec![
        Builtin::BlockCoinbase,
        Builtin::BlockTimestamp,
        Builtin::BlockDifficulty,
        Builtin::BlockPrevrandao,
        Builtin::BlockNumber,
        Builtin::BlockGaslimit,
        Builtin::BlockChainid,
        Builtin::BlockBasefee,
        Builtin::BlockBlobbasefee,
    ]);
    assert_eq!(Builtin::Msg.members().unwrap(), vec![
        Builtin::MsgSender,
        Builtin::MsgGas,
        Builtin::MsgValue,
        Builtin::MsgData,
        Builtin::MsgSig,
    ]);
    assert_eq!(Builtin::Tx.members().unwrap(), vec![Builtin::TxOrigin, Builtin::TxGasPrice]);
    assert_eq!(Builtin::Abi.members().unwrap(), vec![
        Builtin::AbiEncode,
        Builtin::AbiEncodePacked,
        Builtin::AbiEncodeWithSelector,
        Builtin::AbiEncodeCall,
        Builtin::AbiEncodeWithSignature,
        Builtin::AbiDecode,
    ]);
    for builtin in Builtin::iter() {
        let has_members =
            matches!(builtin, Builtin::Block | Builtin::Msg | Builtin::Tx | Builtin::Abi);
        assert_eq!(builtin.members().is_some(), has_members, "{builtin:?}");
    }
    assert_eq!((FIRST_BLOCK, LAST_BLOCK), (21, 30));
    assert_eq!((FIRST_MSG, LAST_MSG), (30, 35));
    assert_eq!((FIRST_TX, LAST_TX), (35, 37));
    assert_eq!((FIRST_ABI, LAST_ABI), (37, 43));
}

#[test]
fn names() {
    assert_eq!(Builtin::Blockhash.name(), "blockhash");
    assert_eq!(Builtin::Require.name(), "require");
    assert_eq!(Builtin::RequireMsg.name(), "require");
    assert_eq!(Builtin::Super.name(), "super");
    assert_eq!(Builtin::BlockCoinbase.name(), "coinbase");
    assert_eq!(Builtin::MsgSender.name(), "sender");
    assert_eq!(Builtin::TxGasPrice.name(), "gasprice");
    assert_eq!(Builtin::AbiEncodeWithSelector.name(), "encodeWithSelector");
    assert_eq!(Builtin::FixedBytesLength.name(), "length");
    assert_eq!(Builtin::ArrayLength.name(), "length");
    assert_eq!(Builtin::ContractCreationCode.name(), "creationCode");
    assert_eq!(Builtin::BytesConcat.name(), "concat");
    for builtin in Builtin::iter() {
        assert!(!builtin.name().is_empty());
    }
}
