use nft_market::error::ContractError;
use nft_market::msg::{ExecuteMsg, InstantiateMsg, QueryMsg};
use nft_market::query::QueryResponse;
use nft_market::response::ContractInfoResponse;
use nft_market::shim::{CosmosMsg, Payload};
use nft_market::state::Contract;
use nft_market::types::Attribute;
use nft_market::utils::{get_mock_info, initialize_contract, mint_token, MINTER, NAME, OWNER,
    SYMBOL, TOKEN_ID};

const STRANGER: &str = "stranger";

fn owner_of(contract: &Contract, token_id: &str) -> String {
    contract
        .get_owner_of_token(token_id.to_string())
        .unwrap()
        .owner
        .as_str()
        .to_string()
}

#[test]
fn should_initialize_contract_and_set_initial_state() {
    let (contract, init_result) = initialize_contract();

    assert_eq!(init_result.messages.len(), 0);
    assert_eq!(contract.minter.as_str(), MINTER);
    assert_eq!(contract.owner.as_str(), OWNER);
    assert_eq!(contract.get_num_tokens().number, 0);
    assert_eq!(
        contract.get_contract_info(),
        ContractInfoResponse {
            name: NAME.to_string(),
            symbol: SYMBOL.to_string()
        }
    )
}

#[test]
fn should_fail_mint_when_called_not_by_minter() {
    let (mut contract, _) = initialize_contract();

    let mint_res = mint_token(&mut contract, STRANGER, TOKEN_ID).unwrap_err();

    assert!(matches!(mint_res, ContractError::Unauthorized {}));
}

#[test]
fn should_mint_token() {
    let (mut contract, _) = initialize_contract();

    let mint_res = mint_token(&mut contract, MINTER, TOKEN_ID).unwrap();

    assert_eq!(mint_res.messages.len(), 0);
    assert_eq!(owner_of(&contract, TOKEN_ID), OWNER);
    assert_eq!(
        contract.get_nft_info(TOKEN_ID.to_string()).unwrap().token_uri,
        None
    );
}

#[test]
fn should_fail_nft_transfer_when_called_not_by_owner() {
    let (mut contract, _) = initialize_contract();
    mint_token(&mut contract, MINTER, TOKEN_ID).unwrap();

    let transfer_result = contract
        .execute(
            get_mock_info(STRANGER),
            ExecuteMsg::TransferNft {
                token_id: TOKEN_ID.to_string(),
                to: STRANGER.to_string(),
            },
        )
        .unwrap_err();

    assert!(matches!(transfer_result, ContractError::Unauthorized {}))
}

#[test]
fn should_transfer_nft() {
    let (mut contract, _) = initialize_contract();
    mint_token(&mut contract, MINTER, TOKEN_ID).unwrap();

    let transfer_result = contract
        .execute(
            get_mock_info(OWNER),
            ExecuteMsg::TransferNft {
                token_id: TOKEN_ID.to_string(),
                to: STRANGER.to_string(),
            },
        )
        .unwrap();

    assert_eq!(transfer_result.messages.len(), 0);
    assert_eq!(owner_of(&contract, TOKEN_ID), STRANGER);
}

#[test]
fn should_fail_nft_send_when_called_not_by_owner() {
    let (mut contract, _) = initialize_contract();
    mint_token(&mut contract, MINTER, TOKEN_ID).unwrap();

    let send_result = contract
        .execute(
            get_mock_info(STRANGER),
            ExecuteMsg::SendNft {
                token_id: TOKEN_ID.to_string(),
                contract: STRANGER.to_string(),
                msg: Payload::Text("Hello, it's fail!".to_string()),
            },
        )
        .unwrap_err();

    assert!(matches!(send_result, ContractError::Unauthorized {}))
}

#[test]
fn should_send_nft() {
    let (mut contract, _) = initialize_contract();
    mint_token(&mut contract, MINTER, TOKEN_ID).unwrap();

    let send_result = contract
        .execute(
            get_mock_info(OWNER),
            ExecuteMsg::SendNft {
                token_id: TOKEN_ID.to_string(),
                contract: STRANGER.to_string(),
                msg: Payload::Text("Hello, it's success!".to_string()),
            },
        )
        .unwrap();

    assert_eq!(send_result.messages.len(), 1);
    match &send_result.messages[0].msg {
        CosmosMsg::NotifyReceive { contract_addr, msg } => {
            assert_eq!(contract_addr, STRANGER);
            assert_eq!(msg.sender, OWNER);
            assert_eq!(msg.token_id, TOKEN_ID);
            assert_eq!(msg.msg, Payload::Text("Hello, it's success!".to_string()));
        }
        other => panic!("unexpected outbound message: {:?}", other),
    }
    assert_eq!(owner_of(&contract, TOKEN_ID), STRANGER);
}

#[test]
fn contract_test() {
    const CONTRACT_NAME: &str = "contract228";
    const SECOND_ADDR: &str = "contract1";

    let init_msg = InstantiateMsg {
        minter: MINTER.to_string(),
        name: CONTRACT_NAME.to_string(),
        symbol: SYMBOL.to_string(),
    };
    let (mut first, _) = Contract::instantiate(get_mock_info(OWNER), init_msg);
    let second_init = InstantiateMsg {
        minter: MINTER.to_string(),
        name: CONTRACT_NAME.to_string(),
        symbol: SYMBOL.to_string(),
    };
    let (second, _) = Contract::instantiate(get_mock_info(OWNER), second_init);

    let contract_info = match first.query(QueryMsg::ContractInfo {}).unwrap() {
        QueryResponse::ContractInfo(ci) => ci,
        other => panic!("unexpected answer: {:?}", other),
    };
    assert_eq!(
        contract_info,
        ContractInfoResponse {
            name: CONTRACT_NAME.to_string(),
            symbol: SYMBOL.to_string()
        }
    );

    first
        .execute(
            get_mock_info(MINTER),
            ExecuteMsg::Mint {
                token: nft_market::msg::TokenMsg {
                    owner: OWNER.to_string(),
                    token_id: TOKEN_ID.to_string(),
                    token_uri: None,
                },
            },
        )
        .unwrap();

    let tokens_num = first.get_num_tokens();
    assert_eq!(tokens_num.number, 1);

    let send_res = first
        .execute(
            get_mock_info(OWNER),
            ExecuteMsg::SendNft {
                token_id: TOKEN_ID.to_string(),
                contract: SECOND_ADDR.to_string(),
                msg: Payload::Text("Hello from first".to_string()),
            },
        )
        .unwrap();

    assert_eq!(
        send_res.attributes,
        vec![
            Attribute::new("action", "transfer"),
            Attribute::new("receiver", SECOND_ADDR),
            Attribute::new("token_id", TOKEN_ID),
        ]
    );

    // the host delivers the outbound notification to the second contract
    let delivered = match send_res.messages[0].msg {
        CosmosMsg::NotifyReceive { ref msg, .. } => second
            .receive_nft(nft_market::shim::Cw721ReceiveMsg {
                sender: msg.sender.clone(),
                token_id: msg.token_id.clone(),
                msg: Payload::Text("Hello from first".to_string()),
            })
            .unwrap(),
        ref other => panic!("unexpected outbound message: {:?}", other),
    };
    assert_eq!(
        delivered.attributes,
        vec![
            Attribute::new("action", "receive"),
            Attribute::new("sender", OWNER),
            Attribute::new("token_id", TOKEN_ID),
            Attribute::new("msg", "Hello from first"),
        ]
    );

    let token_owner = owner_of(&first, TOKEN_ID);
    assert_eq!(token_owner, SECOND_ADDR);
}

#[test]
fn mint_transfer_then_stale_owner_is_rejected() {
    let (mut contract, _) = initialize_contract();
    mint_token(&mut contract, MINTER, TOKEN_ID).unwrap();
    assert_eq!(owner_of(&contract, TOKEN_ID), OWNER);

    contract
        .execute(
            get_mock_info(OWNER),
            ExecuteMsg::TransferNft {
                token_id: TOKEN_ID.to_string(),
                to: STRANGER.to_string(),
            },
        )
        .unwrap();
    assert_eq!(owner_of(&contract, TOKEN_ID), STRANGER);

    let retry = contract
        .execute(
            get_mock_info(OWNER),
            ExecuteMsg::TransferNft {
                token_id: TOKEN_ID.to_string(),
                to: STRANGER.to_string(),
            },
        )
        .unwrap_err();
    assert!(matches!(retry, ContractError::Unauthorized {}));
}

#[test]
fn second_mint_of_same_id_fails_and_keeps_token() {
    let (mut contract, _) = initialize_contract();
    mint_token(&mut contract, MINTER, TOKEN_ID).unwrap();

    contract
        .execute(
            get_mock_info(OWNER),
            ExecuteMsg::TransferNft {
                token_id: TOKEN_ID.to_string(),
                to: STRANGER.to_string(),
            },
        )
        .unwrap();

    let second = mint_token(&mut contract, MINTER, TOKEN_ID).unwrap_err();
    assert!(matches!(second, ContractError::TokenAlreadyExists {}));
    // the original token is unchanged
    assert_eq!(owner_of(&contract, TOKEN_ID), STRANGER);
    assert_eq!(contract.get_num_tokens().number, 1);
}

#[test]
fn mint_response_reports_the_token() {
    let (mut contract, _) = initialize_contract();

    let res = mint_token(&mut contract, MINTER, TOKEN_ID).unwrap();

    assert_eq!(
        res.attributes,
        vec![
            Attribute::new("action", "mint"),
            Attribute::new("token_id", TOKEN_ID),
            Attribute::new("owner", OWNER),
            Attribute::new("token_uri", "zxc"),
        ]
    );
}

#[test]
fn transfer_of_missing_token_is_not_found() {
    let (mut contract, _) = initialize_contract();

    let res = contract
        .execute(
            get_mock_info(OWNER),
            ExecuteMsg::TransferNft {
                token_id: "nope".to_string(),
                to: STRANGER.to_string(),
            },
        )
        .unwrap_err();
    assert!(matches!(res, ContractError::NotFound {}));
}

#[test]
fn queries_on_missing_token_are_not_found() {
    let (contract, _) = initialize_contract();

    assert!(matches!(
        contract.get_owner_of_token("7".to_string()).unwrap_err(),
        ContractError::NotFound {}
    ));
    assert!(matches!(
        contract.get_nft_info("7".to_string()).unwrap_err(),
        ContractError::NotFound {}
    ));
}

#[test]
fn receive_of_sale_payload_is_a_decode_error() {
    let (contract, _) = initialize_contract();

    let res = contract
        .receive_nft(nft_market::shim::Cw721ReceiveMsg {
            sender: OWNER.to_string(),
            token_id: TOKEN_ID.to_string(),
            msg: Payload::Sale(nft_market::shim::SaleData {
                price: nft_market::types::Coin::new("atom", 5),
            }),
        })
        .unwrap_err();
    assert!(matches!(res, ContractError::DecodeError {}));
}
