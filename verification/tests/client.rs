use zescrow::bignum::BigNumber;
use zescrow::asset::{Asset, AssetKind};
use zescrow::client::{
    created_id, escrow_id, evm_amount, evm_create_args, funded_metadata, parse_address,
    ClientError, Recipient, ReleaseProof, ZescrowClientBuilder,
};
use zescrow::interface::{Chain, ChainConfig, EscrowParams, ExecutionState};

#[test]
fn recipient_captures_raw_input() {
    let eth: Recipient = "0xfeedface".parse().unwrap();
    assert_eq!(eth.0, "0xfeedface");
    let solana: Recipient = "/home/user/id.json".parse().unwrap();
    assert_eq!(solana.0, "/home/user/id.json");
}

#[test]
fn ethereum_error_carries_context_and_message() {
    let message = ClientError::ethereum("createEscrow", "boom").to_string();
    assert!(message.contains("createEscrow"));
    assert!(message.contains("boom"));
}

#[test]
fn parse_address_ignores_case_and_prefix() {
    let checksummed = parse_address("0xd8dA6BF26964aF9D7eEd9e03E53415D37aA96045");
    let bare = parse_address("d8da6bf26964af9d7eed9e03e53415d37aa96045");
    assert_eq!(checksummed.unwrap(), bare.unwrap());
}

#[test]
fn parse_address_rejects_wrong_length() {
    assert!(parse_address("0xdeadbeef").is_err());
}

#[test]
fn parse_address_rejects_non_hex() {
    assert!(parse_address("0xnothexnothexnothexnothexnothexnothexnoth").is_err());
}

#[test]
fn parse_address_decodes_bytes() {
    let a = parse_address("0X000102030405060708090a0b0c0d0e0f10111213").unwrap();
    let expected: Vec<u8> = (0u8..20).collect();
    assert_eq!(a.to_vec(), expected);
}

#[test]
fn builder_keeps_config_and_sets_recipient() {
    let config = ChainConfig {
        chain: Chain::Solana,
        rpc_url: "http://127.0.0.1:8899".to_string(),
        sender_private_id: "/tmp/sender.json".to_string(),
        agent_id: "J4SfUoLAAsvmAWMQGa8dJHw8vsSvRfUUMXGTxcmSeS8s".to_string(),
    };
    let builder = ZescrowClientBuilder::new(config);
    assert!(builder.recipient.is_none());
    let builder = builder.recipient("/tmp/recipient.json".parse().unwrap());
    assert_eq!(builder.recipient.unwrap().0, "/tmp/recipient.json");
    assert_eq!(builder.config.rpc_url, "http://127.0.0.1:8899");
}

#[test]
fn release_proof_defaults_to_empty() {
    let proof = ReleaseProof::default();
    assert!(proof.seal.is_empty());
    assert!(proof.journal.is_empty());
}

#[test]
fn evm_amount_is_big_endian_word() {
    let word = evm_amount(&BigNumber::from_u64(258)).unwrap();
    let mut expected = [0u8; 32];
    expected[30] = 1;
    expected[31] = 2;
    assert_eq!(word, expected);
}

#[test]
fn evm_amount_overflow() {
    let mut too_big = vec![1u8];
    too_big.extend_from_slice(&[0u8; 32]);
    assert_eq!(
        evm_amount(&BigNumber::from_bytes_be(&too_big)),
        Err(ClientError::AssetOverflow)
    );
}

#[test]
fn escrow_id_missing_names_operation() {
    assert_eq!(escrow_id(Some(9), "finishEscrow"), Ok(9));
    let err = escrow_id(None, "cancelEscrow").unwrap_err();
    assert!(err.to_string().contains("cancelEscrow"));
    assert!(err.to_string().contains("missing escrow_id"));
}

#[test]
fn created_id_from_event() {
    let mut word = [0u8; 32];
    word[31] = 5;
    word[30] = 1;
    assert_eq!(created_id(Some(word)), Ok(261));
    word[23] = 1;
    assert_eq!(
        created_id(Some(word)),
        Err(ClientError::MissingEvent("escrow_id exceeds u64".to_string()))
    );
    assert!(matches!(created_id(None), Err(ClientError::MissingEvent(_))));
    assert_eq!(
        created_id(None),
        Err(ClientError::MissingEvent("EscrowCreated event not found".to_string()))
    );
    assert_eq!(created_id(Some([0xff; 32])).is_err(), true);
    let mut max = [0u8; 32];
    max[24..].copy_from_slice(&u64::MAX.to_be_bytes());
    assert_eq!(created_id(Some(max)), Ok(u64::MAX));
}

fn eth_params(recipient: &str, amount: BigNumber) -> EscrowParams {
    EscrowParams {
        chain_config: ChainConfig {
            chain: Chain::Ethereum,
            rpc_url: "http://127.0.0.1:8545".to_string(),
            sender_private_id: "0x01".to_string(),
            agent_id: "0x5FbDB2315678afecb367f032d93F642f64180aa3".to_string(),
        },
        asset: Asset { kind: AssetKind::Native, agent_id: None, amount, decimals: None },
        sender: "f39fd6e51aad88f6f4ce6ab8827279cfffb92266".to_string(),
        recipient: recipient.to_string(),
        finish_after: Some(300),
        cancel_after: None,
        has_conditions: true,
    }
}

#[test]
fn create_arguments_for_the_evm_contract() {
    let params = eth_params(
        "0x70997970C51812dc3A010C7d01b50e0d17dc79C8",
        BigNumber::from_u64(1_000_000_000_000_000_000),
    );
    let args = evm_create_args(&params, Some([7u8; 32])).unwrap();
    assert_eq!(hex::encode(args.recipient), "70997970c51812dc3a010c7d01b50e0d17dc79c8");
    let mut finish = [0u8; 32];
    finish[30] = 1;
    finish[31] = 44;
    assert_eq!(args.finish_after, finish);
    assert_eq!(args.cancel_after, [0u8; 32]);
    assert_eq!(args.condition_id, [7u8; 32]);
    let mut amount = [0u8; 32];
    amount[24..].copy_from_slice(&1_000_000_000_000_000_000u64.to_be_bytes());
    assert_eq!(args.amount, amount);
    let unconditioned = evm_create_args(&params, None).unwrap();
    assert_eq!(unconditioned.condition_id, [0u8; 32]);
}

#[test]
fn create_arguments_refuse_bad_recipient_before_amount() {
    let huge = BigNumber::from_bytes_be(&[1u8; 33]);
    let bad = eth_params("0x1234", huge.clone());
    assert!(matches!(evm_create_args(&bad, None), Err(ClientError::Ethereum { .. })));
    let good = eth_params("70997970c51812dc3a010c7d01b50e0d17dc79c8", huge);
    assert_eq!(evm_create_args(&good, None), Err(ClientError::AssetOverflow));
}

#[test]
fn funded_metadata_records_id() {
    let params = eth_params("70997970c51812dc3a010c7d01b50e0d17dc79c8", BigNumber::from_u64(1));
    let metadata = funded_metadata(params, 42);
    assert_eq!(metadata.state, ExecutionState::Funded);
    assert_eq!(metadata.escrow_id, Some(42));
    assert_eq!(metadata.params.recipient, "70997970c51812dc3a010c7d01b50e0d17dc79c8");
    assert_eq!(metadata.params.finish_after, Some(300));
}
