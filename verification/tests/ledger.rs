use nft_contract::errors::NftError;
use nft_contract::metadata::{AccountId, TokenId, TokenMetadata};
use nft_contract::Contract;

/// Helper function to create TokenMetadata of thevarus
fn get_thevarus() -> TokenMetadata {
    TokenMetadata {
        title: Some(String::from("thevarus")),
        description: Some(String::from("pathogen")),
        media: Some(String::from("https://tinyurl.com/bddjmwk4")),
        media_hash: Some(vec![0, 1, 2]),
        copies: Some(1),
        issued_at: Some(1_000),
        expires_at: Some(1_000_000),
        starts_at: Some(10_000),
        updated_at: Some(100_000),
        extra: Some(String::from("some extra data")),
        reference: Some(String::from("thevarus.extra-info")),
        reference_hash: Some(vec![1, 2, 3]),
    }
}

fn alice() -> AccountId {
    "alice.near".to_string()
}

fn bob() -> AccountId {
    "bob.near".to_string()
}

fn carol() -> AccountId {
    "carol.near".to_string()
}

/// Helper function to construct a valid account from input string
fn contract() -> AccountId {
    "contract.near".to_string()
}

/// Helper function to construct the burn address
fn burn() -> AccountId {
    "burn.near".to_string()
}

/// Helper function to construct the original TokenID
fn original() -> TokenId {
    0u64
}

/// Helper function to construct the mutant TokenID
fn mutant() -> TokenId {
    1u64
}

/// Ensure initialisation of metadata works and that the vaxxx list begins empty
#[test]
fn check_initialisation() {
    let mut contract = Contract::new_default_meta(contract());
    assert_eq!(0, contract.vaxxxed.len(), "Expected vaxxxed to be an empty vector.");

    let option = contract.metadata.take().unwrap();
    assert_eq!("nft-1.0.0", option.spec_version, "Expected different spec.");
    assert_eq!("thevarus2022", option.name, "Expected different name.");
    assert_eq!("VARUS", option.symbol, "Expected different symbol.");
}

/// Ensure that minting without providing a receiver id sends the NFT to the caller
#[test]
fn mint_no_receiver() {
    let mut contract = Contract::new_default_meta(contract());

    contract.nft_mint(get_thevarus(), alice());

    let token = contract.tokens_by_id.get(&original()).unwrap();
    assert_eq!(alice(), token.owner_id, "Token should belong to alice.");
}

/// Ensure that minting and providing a receiver id sends the NFT to the receiver
#[test]
fn mint_with_receiver() {
    let mut contract = Contract::new_default_meta(contract());

    contract.nft_mint(get_thevarus(), bob());

    let token = contract.tokens_by_id.get(&original()).unwrap();
    assert_eq!(bob(), token.owner_id, "Token should belong to bob.");
}

/// Ensure that metadata of a minted token is correct
#[test]
fn mint_check_metadata() {
    let mut contract = Contract::new_default_meta(contract());

    contract.nft_mint(get_thevarus(), alice());

    let actual = contract.token_metadata_by_id.get(&original()).unwrap();
    let expected = get_thevarus();
    assert_eq!(expected.title, actual.title, "Expected title to be equal.");
    assert_eq!(expected.description, actual.description, "Expected description to be equal.");
    assert_eq!(expected.media, actual.media, "Expected media to be equal.");
    assert_eq!(expected.media_hash, actual.media_hash, "Expected media_hash to be equal.");
    assert_eq!(expected.copies, actual.copies, "Expected copies to be equal.");
    assert_eq!(expected.issued_at, actual.issued_at, "Expected issued-at to be equal.");
    assert_eq!(expected.expires_at, actual.expires_at, "Expected expires_at to be equal.");
    assert_eq!(expected.starts_at, actual.starts_at, "Expected starts_at to be equal.");
    assert_eq!(expected.updated_at, actual.updated_at, "Expected updated_at to be equal.");
    assert_eq!(expected.extra, actual.extra, "Expected actual to be equal.");
    assert_eq!(expected.reference, actual.reference, "Expected reference to be equal.");
    assert_eq!(
        expected.reference_hash,
        actual.reference_hash,
        "Expected reference_hash to be equal."
    );
}

/// Test cure for a single token
#[test]
fn check_cure() {
    let mut contract = Contract::new_default_meta(contract());

    assert_eq!(
        0,
        contract.nft_supply_for_owner(alice()),
        "Alice should not be infected yet."
    );

    // Mint a token
    contract.nft_mint(get_thevarus(), alice());

    // Get the minted token
    let token = contract.tokens_by_id.get(&original()).unwrap();

    assert_eq!(alice(), token.owner_id, "Token should belong to alice after transfer.");
    assert_eq!(1, contract.nft_supply_for_owner(alice()), "Alice should be infected.");

    // Cure self
    contract.nft_cure(alice()).unwrap();

    let token = contract.tokens_by_id.get(&original()).unwrap();
    assert_eq!(burn(), token.owner_id, "Token should belong to burn after transfer.");
    assert_eq!(
        0,
        contract.nft_supply_for_owner(alice()),
        "Alice should no longer be infected."
    );
}

/// Test cure for multiple tokens
#[test]
fn check_multi_cure() {
    let mut contract = Contract::new_default_meta(contract());

    assert_eq!(
        0,
        contract.nft_supply_for_owner(alice()),
        "Alice should not be infected yet."
    );

    // Mint tokens
    contract.nft_mint(get_thevarus(), alice());

    contract.nft_mint(get_thevarus(), alice());

    // Get the minted token
    let token1 = contract.tokens_by_id.get(&original()).unwrap();
    assert_eq!(alice(), token1.owner_id, "Token should belong to alice after transfer.");
    let token2 = contract.tokens_by_id.get(&mutant()).unwrap();
    assert_eq!(alice(), token2.owner_id, "Token should belong to alice after transfer.");
    assert_eq!(2, contract.nft_supply_for_owner(alice()), "Alice should be infected.");

    // Cure self
    contract.nft_cure(alice()).unwrap();

    // Get the minted token
    let cured1 = contract.tokens_by_id.get(&original()).unwrap();
    assert_eq!(burn(), cured1.owner_id, "Token should belong to burn after transfer.");
    let cured2 = contract.tokens_by_id.get(&mutant()).unwrap();
    assert_eq!(burn(), cured2.owner_id, "Token should belong to burn after transfer.");
    assert_eq!(
        0,
        contract.nft_supply_for_owner(alice()),
        "Alice should no longer be infected."
    );
}

/// Test cure fails if a user is not infected
#[test]
fn cure_fails_non_infected() {
    let mut contract = Contract::new_default_meta(contract());

    // Cure self
    let result = contract.nft_cure(alice());
    assert_eq!(Err(NftError::NothingToCure), result);
}

/// Ensure that the transfer sends the original token to the recipient
#[test]
fn transfer_sends_original() {
    let mut contract = Contract::new_default_meta(contract());

    contract.nft_mint(get_thevarus(), alice());

    contract
        .nft_transfer(alice(), bob(), original(), Some(carol()), None, false, None)
        .unwrap();

    let token = contract.tokens_by_id.get(&original()).unwrap();
    assert_eq!(bob(), token.owner_id, "Token should belong to bob after transfer.");
}

/// Ensure that the transfer mints the mutant token for the secondary receiver
#[test]
fn transfer_creates_mutant() {
    let mut contract = Contract::new_default_meta(contract());

    contract.nft_mint(get_thevarus(), alice());

    contract
        .nft_transfer(alice(), bob(), original(), Some(carol()), None, false, None)
        .unwrap();

    let token = contract.tokens_by_id.get(&mutant()).unwrap();
    assert_eq!(carol(), token.owner_id, "Token should belong to bob after transfer.");
}

/// Check that vaxxx function adds to the vaxxxed list
#[test]
fn vaxxx_adds_to_vaxxxed() {
    let mut contract = Contract::new_default_meta(contract());
    assert_eq!(0, contract.vaxxxed.len(), "Expected empty vaxxx list."); // Sanity check

    // vaxxx alice and bob
    contract.vaxxx(alice());
    contract.vaxxx(bob());

    // ensure vaxxx list now contains both alice and bob
    assert_eq!(2, contract.vaxxxed.len(), "Expected single addition to vaxxx list.");
    contract.vaxxxed.contains(&alice());
    contract.vaxxxed.contains(&bob());
}

/// Check that vaxxx_pass returns true for vaxxxed addresses and false for un-vaxxxed
#[test]
fn check_vaxxx_pass() {
    let mut contract = Contract::new_default_meta(contract());
    assert_eq!(0, contract.vaxxxed.len(), "Expected empty vaxxx list."); // Sanity check

    contract.vaxxx(alice()); // Vaxxx alice
    assert!(contract.vaxxx_pass(alice()), "Expected alice to be vaxxxed");
    assert!(!contract.vaxxx_pass(bob()), "Expected bob to be un-vaxxxed");
}

/// Check that the vaxxx_list contains all of the added addresses
#[test]
fn check_vaxxx_list() {
    let mut contract = Contract::new_default_meta(contract());
    assert_eq!(0, contract.vaxxxed.len(), "Expected empty vaxxx list."); // Sanity check

    // Vaxxx alice and bob
    contract.vaxxx(alice());
    contract.vaxxx(bob());

    // Check vaxxx_list
    let vaxxxed_vector = contract.vaxxx_list();
    assert_eq!("alice.near", vaxxxed_vector.get(0).unwrap().to_string(), "");
    assert_eq!("bob.near", vaxxxed_vector.get(1).unwrap().to_string(), "");
}
