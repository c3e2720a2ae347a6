use nft_market::response::{ContractInfoResponse, NftInfoResponse, NumTokensResponse};
use nft_market::state::{Contract, Token};
use nft_market::utils::{initialize_contract, mint_token, MINTER, NAME, OWNER, SYMBOL, TOKEN_ID};

fn ids(tokens: &[Token]) -> Vec<String> {
    tokens.iter().map(|t| t.token_id.clone()).collect()
}

fn mint_multiple_tokens(contract: &mut Contract) {
    mint_token(contract, MINTER, TOKEN_ID).unwrap();
    mint_token(contract, MINTER, "2").unwrap();
    mint_token(contract, MINTER, "3").unwrap();
}

#[test]
fn get_contract_info_should_return_contract_info() {
    let (contract, _) = initialize_contract();

    let res = contract.get_contract_info();

    assert_eq!(
        res,
        ContractInfoResponse {
            name: NAME.to_string(),
            symbol: SYMBOL.to_string()
        }
    );
}

#[test]
fn get_nft_info_should_return_nft_info() {
    let (mut contract, _) = initialize_contract();
    mint_token(&mut contract, MINTER, TOKEN_ID).unwrap();

    let res = contract.get_nft_info(TOKEN_ID.to_string()).unwrap();

    assert_eq!(res, NftInfoResponse { token_uri: None });
}

#[test]
fn get_num_tokens_should_return_number_of_tokens() {
    let (mut contract, _) = initialize_contract();
    mint_token(&mut contract, MINTER, TOKEN_ID).unwrap();

    let res = contract.get_num_tokens();

    assert_eq!(res, NumTokensResponse { number: 1 });
}

#[test]
fn get_owner_of_token_should_return_owner_of_token() {
    let (mut contract, _) = initialize_contract();
    mint_token(&mut contract, MINTER, TOKEN_ID).unwrap();

    let res = contract.get_owner_of_token(TOKEN_ID.to_string()).unwrap();

    assert_eq!(res.owner.as_str(), OWNER);
}

#[test]
fn get_owner_tokens_should_return_owner_tokens() {
    let (mut contract, _) = initialize_contract();
    mint_multiple_tokens(&mut contract);

    let res = contract.get_owner_tokens(OWNER.to_string(), None, None);

    assert_eq!(ids(&res.tokens), vec!["1", "2", "3"]);
    assert!(res.tokens.iter().all(|t| t.owner.as_str() == OWNER));
}

#[test]
fn get_all_tokens_should_return_all_tokens() {
    let (mut contract, _) = initialize_contract();
    mint_multiple_tokens(&mut contract);

    let res = contract.get_all_tokens(None, None);

    assert_eq!(ids(&res.tokens), vec!["1", "2", "3"]);
}

#[test]
fn get_all_tokens_should_return_all_tokens_started_after_some_token() {
    let (mut contract, _) = initialize_contract();
    mint_multiple_tokens(&mut contract);

    let res = contract.get_all_tokens(Some(TOKEN_ID.to_string()), None);

    assert_eq!(ids(&res.tokens), vec!["2", "3"]);
}

#[test]
fn get_all_tokens_should_return_all_tokens_with_some_limit() {
    let (mut contract, _) = initialize_contract();
    mint_multiple_tokens(&mut contract);

    let res = contract.get_all_tokens(None, Some(1));

    assert_eq!(ids(&res.tokens), vec!["1"]);
}

#[test]
fn pagination_edges() {
    let (mut contract, _) = initialize_contract();

    // an empty table pages to nothing
    assert_eq!(contract.get_all_tokens(None, None).tokens.len(), 0);

    mint_multiple_tokens(&mut contract);

    // a bound past the last id pages to nothing
    assert_eq!(
        contract.get_all_tokens(Some("9".to_string()), None).tokens.len(),
        0
    );
    // a zero limit pages to nothing
    assert_eq!(contract.get_all_tokens(None, Some(0)).tokens.len(), 0);
    // an oversized limit returns everything once
    assert_eq!(
        ids(&contract.get_all_tokens(None, Some(1000)).tokens),
        vec!["1", "2", "3"]
    );
    // ids order lexicographically: "10" falls between "1" and "2"
    mint_token(&mut contract, MINTER, "10").unwrap();
    assert_eq!(
        ids(&contract.get_all_tokens(None, None).tokens),
        vec!["1", "10", "2", "3"]
    );
}

#[test]
fn owner_tokens_follow_transfers() {
    let (mut contract, _) = initialize_contract();
    mint_multiple_tokens(&mut contract);

    contract
        .execute(
            nft_market::utils::get_mock_info(OWNER),
            nft_market::msg::ExecuteMsg::TransferNft {
                token_id: "2".to_string(),
                to: "stranger".to_string(),
            },
        )
        .unwrap();

    assert_eq!(
        ids(&contract.get_owner_tokens(OWNER.to_string(), None, None).tokens),
        vec!["1", "3"]
    );
    assert_eq!(
        ids(&contract.get_owner_tokens("stranger".to_string(), None, None).tokens),
        vec!["2"]
    );
}
