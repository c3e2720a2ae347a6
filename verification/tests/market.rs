use nft_market::market::error::ContractError;
use nft_market::market::execute::MINT_RESPONSE_ID;
use nft_market::market::msg::{Cw721ReceiveMsg, ExecuteMsg, InstantiateMsg, QueryMsg,
    ReceiveLazyNftMsg};
use nft_market::market::query::QueryResponse;
use nft_market::market::state::Contract;
use nft_market::shim::{CosmosMsg, Event, Reply, ReplyOn, SaleData, SubMsgResponse,
    ExecuteMsgCw721};
use nft_market::types::{Addr, Attribute, Coin, MessageInfo};
use nft_market::utils::{get_mock_info, OWNER, TOKEN_ID};

const NFT_CONTRACT: &str = "nft_contract";
const BUYER: &str = "buyer";
const STRANGER: &str = "stranger";

fn market() -> Contract {
    let (contract, _) = Contract::instantiate(get_mock_info("market_admin"), InstantiateMsg {});
    contract
}

fn listed_market() -> Contract {
    let mut contract = market();
    list_token(&mut contract, TOKEN_ID, 1000000);
    contract
}

fn list_token(contract: &mut Contract, token_id: &str, amount: u128) {
    contract
        .execute(
            get_mock_info(NFT_CONTRACT),
            ExecuteMsg::ReceiveNft(Cw721ReceiveMsg {
                token_id: token_id.to_string(),
                sender: OWNER.to_string(),
                msg: SaleData {
                    price: Coin::new("atom", amount),
                },
            }),
        )
        .unwrap();
}

fn buyer_info(denom: &str, amount: u128) -> MessageInfo {
    MessageInfo {
        sender: Addr::new(BUYER.to_string()),
        funds: vec![Coin::new(denom, amount)],
    }
}

#[test]
fn receive_nft_records_the_sale() {
    let mut contract = market();

    let res = contract
        .execute(
            get_mock_info(NFT_CONTRACT),
            ExecuteMsg::ReceiveNft(Cw721ReceiveMsg {
                token_id: TOKEN_ID.to_string(),
                sender: OWNER.to_string(),
                msg: SaleData {
                    price: Coin::new("atom", 1000000),
                },
            }),
        )
        .unwrap();

    assert_eq!(
        res.attributes,
        vec![
            Attribute::new("action", "receive"),
            Attribute::new("token_id", TOKEN_ID),
            Attribute::new("owner", OWNER),
            Attribute::new("buy_token", "atom"),
            Attribute::new("buy_price", "1000000"),
        ]
    );

    let sales = match contract.query(QueryMsg::Sales {}) {
        QueryResponse::Sales(s) => s.sales,
    };
    assert_eq!(sales.len(), 1);
    assert_eq!(sales[0].token_id, TOKEN_ID);
    assert_eq!(sales[0].owner.as_str(), OWNER);
    assert_eq!(sales[0].contract.as_str(), NFT_CONTRACT);
    assert_eq!(sales[0].price, Coin::new("atom", 1000000));
}

#[test]
fn receive_nft_of_listed_token_already_exists() {
    let mut contract = listed_market();

    let res = contract
        .execute(
            get_mock_info(NFT_CONTRACT),
            ExecuteMsg::ReceiveNft(Cw721ReceiveMsg {
                token_id: TOKEN_ID.to_string(),
                sender: STRANGER.to_string(),
                msg: SaleData {
                    price: Coin::new("atom", 7),
                },
            }),
        )
        .unwrap_err();
    assert!(matches!(res, ContractError::AlreadyExists {}));

    // the original sale is unchanged
    let sales = match contract.query(QueryMsg::Sales {}) {
        QueryResponse::Sales(s) => s.sales,
    };
    assert_eq!(sales[0].owner.as_str(), OWNER);
    assert_eq!(sales[0].price, Coin::new("atom", 1000000));
}

#[test]
fn remove_sale_requires_the_lister() {
    let mut contract = listed_market();

    let res = contract
        .execute(
            get_mock_info(STRANGER),
            ExecuteMsg::RemoveSale {
                token_id: TOKEN_ID.to_string(),
            },
        )
        .unwrap_err();
    assert!(matches!(res, ContractError::Unauthorized {}));

    let res = contract
        .execute(
            get_mock_info(OWNER),
            ExecuteMsg::RemoveSale {
                token_id: TOKEN_ID.to_string(),
            },
        )
        .unwrap();
    assert_eq!(
        res.attributes,
        vec![
            Attribute::new("action", "remove_sale"),
            Attribute::new("token_id", TOKEN_ID),
        ]
    );

    let res = contract
        .execute(
            get_mock_info(OWNER),
            ExecuteMsg::RemoveSale {
                token_id: TOKEN_ID.to_string(),
            },
        )
        .unwrap_err();
    assert!(matches!(res, ContractError::NotFound {}));
}

#[test]
fn purchase_settles_exactly_once() {
    let mut contract = listed_market();

    let res = contract
        .execute(
            buyer_info("atom", 1000000),
            ExecuteMsg::Purchase {
                token_id: TOKEN_ID.to_string(),
            },
        )
        .unwrap();

    assert_eq!(res.messages.len(), 2);
    match &res.messages[0].msg {
        CosmosMsg::BankSend { to_address, amount } => {
            assert_eq!(to_address, OWNER);
            assert_eq!(amount, &vec![Coin::new("atom", 1000000)]);
        }
        other => panic!("unexpected first outbound message: {:?}", other),
    }
    match &res.messages[1].msg {
        CosmosMsg::ExecuteCw721 { contract_addr, msg } => {
            assert_eq!(contract_addr, NFT_CONTRACT);
            assert_eq!(
                msg,
                &ExecuteMsgCw721::TransferNft {
                    to: BUYER.to_string(),
                    token_id: TOKEN_ID.to_string(),
                }
            );
        }
        other => panic!("unexpected second outbound message: {:?}", other),
    }
    assert_eq!(
        res.attributes,
        vec![
            Attribute::new("action", "purchase"),
            Attribute::new("buyer", BUYER),
            Attribute::new("token_id", TOKEN_ID),
            Attribute::new("buy_token", "atom"),
            Attribute::new("buy_price", "1000000"),
        ]
    );

    // the sale is consumed: a second settlement attempt finds nothing
    let retry = contract
        .execute(
            buyer_info("atom", 1000000),
            ExecuteMsg::Purchase {
                token_id: TOKEN_ID.to_string(),
            },
        )
        .unwrap_err();
    assert!(matches!(retry, ContractError::NotFound {}));
}

#[test]
fn purchase_rejects_inexact_deposits() {
    let mut contract = listed_market();

    let wrong_denom = contract
        .execute(
            buyer_info("juno", 1000000),
            ExecuteMsg::Purchase {
                token_id: TOKEN_ID.to_string(),
            },
        )
        .unwrap_err();
    assert!(matches!(wrong_denom, ContractError::InvalidDeposit {}));

    let too_little = contract
        .execute(
            buyer_info("atom", 999999),
            ExecuteMsg::Purchase {
                token_id: TOKEN_ID.to_string(),
            },
        )
        .unwrap_err();
    assert!(matches!(too_little, ContractError::InvalidDeposit {}));

    let too_much = contract
        .execute(
            buyer_info("atom", 1000001),
            ExecuteMsg::Purchase {
                token_id: TOKEN_ID.to_string(),
            },
        )
        .unwrap_err();
    assert!(matches!(too_much, ContractError::InvalidDeposit {}));

    let no_funds = contract
        .execute(
            get_mock_info(BUYER),
            ExecuteMsg::Purchase {
                token_id: TOKEN_ID.to_string(),
            },
        )
        .unwrap_err();
    assert!(matches!(no_funds, ContractError::InvalidDeposit {}));

    // the sale survives every rejection
    let sales = match contract.query(QueryMsg::Sales {}) {
        QueryResponse::Sales(s) => s.sales,
    };
    assert_eq!(sales.len(), 1);
}

#[test]
fn purchase_of_unlisted_token_is_not_found() {
    let mut contract = market();

    let res = contract
        .execute(
            buyer_info("atom", 1),
            ExecuteMsg::Purchase {
                token_id: TOKEN_ID.to_string(),
            },
        )
        .unwrap_err();
    assert!(matches!(res, ContractError::NotFound {}));
}

#[test]
fn purchase_takes_the_first_coin_of_the_asked_denomination() {
    let mut contract = listed_market();

    let info = MessageInfo {
        sender: Addr::new(BUYER.to_string()),
        funds: vec![
            Coin::new("juno", 5),
            Coin::new("atom", 1000000),
            Coin::new("atom", 17),
        ],
    };
    let res = contract
        .execute(
            info,
            ExecuteMsg::Purchase {
                token_id: TOKEN_ID.to_string(),
            },
        )
        .unwrap();
    match &res.messages[0].msg {
        CosmosMsg::BankSend { amount, .. } => {
            assert_eq!(amount, &vec![Coin::new("atom", 1000000)]);
        }
        other => panic!("unexpected outbound message: {:?}", other),
    }
}

#[test]
fn receive_lazy_nft_registers_once() {
    let mut contract = market();

    contract
        .execute(
            get_mock_info(OWNER),
            ExecuteMsg::ReceiveLazyNft(ReceiveLazyNftMsg {
                contract: NFT_CONTRACT.to_string(),
                token_id: TOKEN_ID.to_string(),
            }),
        )
        .unwrap();

    let again = contract
        .execute(
            get_mock_info(OWNER),
            ExecuteMsg::ReceiveLazyNft(ReceiveLazyNftMsg {
                contract: NFT_CONTRACT.to_string(),
                token_id: TOKEN_ID.to_string(),
            }),
        )
        .unwrap_err();
    assert!(matches!(again, ContractError::AlreadyExists {}));
}

#[test]
fn purchase_lazy_issues_a_tagged_mint_request() {
    let mut contract = market();
    contract
        .execute(
            get_mock_info(OWNER),
            ExecuteMsg::ReceiveLazyNft(ReceiveLazyNftMsg {
                contract: NFT_CONTRACT.to_string(),
                token_id: TOKEN_ID.to_string(),
            }),
        )
        .unwrap();

    let res = contract
        .execute(
            get_mock_info(BUYER),
            ExecuteMsg::PurchaseLazy {
                token_id: TOKEN_ID.to_string(),
            },
        )
        .unwrap();

    assert_eq!(res.attributes, vec![Attribute::new("action", "lazy_mint")]);
    assert_eq!(res.messages.len(), 1);
    let sub = &res.messages[0];
    assert_eq!(sub.id, MINT_RESPONSE_ID);
    assert_eq!(sub.reply_on, ReplyOn::Always);
    match &sub.msg {
        CosmosMsg::ExecuteCw721 { contract_addr, msg } => {
            assert_eq!(contract_addr, NFT_CONTRACT);
            assert_eq!(
                msg,
                &ExecuteMsgCw721::Mint {
                    token_id: TOKEN_ID.to_string(),
                    owner: BUYER.to_string(),
                    token_uri: None,
                }
            );
        }
        other => panic!("unexpected outbound message: {:?}", other),
    }
}

#[test]
fn purchase_lazy_of_unlisted_token_is_not_found() {
    let mut contract = market();

    let res = contract
        .execute(
            get_mock_info(BUYER),
            ExecuteMsg::PurchaseLazy {
                token_id: TOKEN_ID.to_string(),
            },
        )
        .unwrap_err();
    assert!(matches!(res, ContractError::NotFound {}));
}

fn mint_attributes() -> Vec<Attribute> {
    vec![
        Attribute::new("action", "mint"),
        Attribute::new("token_id", TOKEN_ID),
        Attribute::new("owner", BUYER),
        Attribute::new("token_uri", "zxc"),
    ]
}

#[test]
fn reply_confirms_a_completed_mint() {
    let contract = market();

    let res = contract
        .reply(Reply {
            id: MINT_RESPONSE_ID,
            result: Ok(SubMsgResponse {
                events: vec![Event {
                    ty: "wasm".to_string(),
                    attributes: mint_attributes(),
                }],
            }),
        })
        .unwrap();

    assert_eq!(res.messages.len(), 0);
    assert_eq!(res.attributes, mint_attributes());
}

#[test]
fn reply_with_unknown_tag_is_invalid() {
    let contract = market();

    let res = contract
        .reply(Reply {
            id: MINT_RESPONSE_ID + 1,
            result: Ok(SubMsgResponse {
                events: vec![Event {
                    ty: "wasm".to_string(),
                    attributes: mint_attributes(),
                }],
            }),
        })
        .unwrap_err();
    assert!(matches!(res, ContractError::InvalidReply {}));
}

#[test]
fn reply_reporting_a_failed_call_is_invalid() {
    let contract = market();

    let res = contract
        .reply(Reply {
            id: MINT_RESPONSE_ID,
            result: Err("mint rejected".to_string()),
        })
        .unwrap_err();
    assert!(matches!(res, ContractError::InvalidReply {}));
}

#[test]
fn reply_without_a_mint_confirmation_is_invalid() {
    let contract = market();

    let res = contract
        .reply(Reply {
            id: MINT_RESPONSE_ID,
            result: Ok(SubMsgResponse {
                events: vec![Event {
                    ty: "wasm".to_string(),
                    attributes: vec![Attribute::new("action", "transfer")],
                }],
            }),
        })
        .unwrap_err();
    assert!(matches!(res, ContractError::InvalidReply {}));
}

#[test]
fn lazy_mint_round_trip() {
    const MARKET_ADDR: &str = "market0";

    // a registry whose minter is the marketplace itself
    let (mut registry, _) = nft_market::state::Contract::instantiate(
        get_mock_info(OWNER),
        nft_market::msg::InstantiateMsg {
            name: "registry".to_string(),
            symbol: "r".to_string(),
            minter: MARKET_ADDR.to_string(),
        },
    );

    let mut contract = market();
    contract
        .execute(
            get_mock_info(OWNER),
            ExecuteMsg::ReceiveLazyNft(ReceiveLazyNftMsg {
                contract: NFT_CONTRACT.to_string(),
                token_id: TOKEN_ID.to_string(),
            }),
        )
        .unwrap();

    let request = contract
        .execute(
            get_mock_info(BUYER),
            ExecuteMsg::PurchaseLazy {
                token_id: TOKEN_ID.to_string(),
            },
        )
        .unwrap();

    // the host delivers the tagged mint instruction to the registry
    let mint_res = match &request.messages[0].msg {
        CosmosMsg::ExecuteCw721 {
            msg: ExecuteMsgCw721::Mint { token_id, owner, token_uri },
            ..
        } => registry
            .execute(
                get_mock_info(MARKET_ADDR),
                nft_market::msg::ExecuteMsg::Mint {
                    token: nft_market::msg::TokenMsg {
                        owner: owner.clone(),
                        token_id: token_id.clone(),
                        token_uri: token_uri.clone(),
                    },
                },
            )
            .unwrap(),
        other => panic!("unexpected outbound message: {:?}", other),
    };

    // ... and reports the outcome back under the same tag
    let confirmation = contract
        .reply(Reply {
            id: request.messages[0].id,
            result: Ok(SubMsgResponse {
                events: vec![Event {
                    ty: "wasm".to_string(),
                    attributes: mint_res.attributes.clone(),
                }],
            }),
        })
        .unwrap();

    // the mint's attributes come back as the purchase's own
    assert_eq!(confirmation.attributes, mint_res.attributes);
    assert_eq!(
        registry
            .get_owner_of_token(TOKEN_ID.to_string())
            .unwrap()
            .owner
            .as_str(),
        BUYER
    );
}

#[test]
fn sales_list_in_ascending_id_order() {
    let mut contract = market();
    list_token(&mut contract, "2", 20);
    list_token(&mut contract, "10", 10);
    list_token(&mut contract, "1", 1);

    let sales = match contract.query(QueryMsg::Sales {}) {
        QueryResponse::Sales(s) => s.sales,
    };
    let ids: Vec<String> = sales.iter().map(|s| s.token_id.clone()).collect();
    assert_eq!(ids, vec!["1", "10", "2"]);
}
