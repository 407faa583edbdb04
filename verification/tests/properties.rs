use nft_contract::errors::NftError;
use nft_contract::metadata::{AccountId, TokenMetadata};
use nft_contract::Contract;

fn plain_meta(title: &str) -> TokenMetadata {
    TokenMetadata {
        title: Some(title.to_string()),
        description: None,
        media: None,
        media_hash: None,
        copies: None,
        issued_at: None,
        expires_at: None,
        starts_at: None,
        updated_at: None,
        extra: None,
        reference: None,
        reference_hash: None,
    }
}

fn alice() -> AccountId {
    "alice.near".to_string()
}

fn bob() -> AccountId {
    "bob.near".to_string()
}

fn carol() -> AccountId {
    "carol.near".to_string()
}

fn deployer() -> AccountId {
    "contract.near".to_string()
}

/// Minting one token: the owner's listing is exactly [0] and the supply 1.
#[test]
fn mint_lists_single_token() {
    let mut contract = Contract::new_default_meta(deployer());
    let id = contract.nft_mint(plain_meta("one"), alice());
    assert_eq!(0u64, id);
    assert_eq!(vec![0u64], contract.nft_tokens_for_owner(alice()));
    assert_eq!(1, contract.nft_supply_for_owner(alice()));
}

/// A plain transfer moves the token and both supplies.
#[test]
fn transfer_moves_supply() {
    let mut contract = Contract::new_default_meta(deployer());
    contract.nft_mint(plain_meta("one"), alice());
    contract
        .nft_transfer(alice(), bob(), 0, None, None, false, None)
        .unwrap();
    let token = contract.nft_token(0).unwrap();
    assert_eq!(bob(), token.owner_id);
    assert_eq!(0, contract.nft_supply_for_owner(alice()));
    assert_eq!(1, contract.nft_supply_for_owner(bob()));
}

/// A transfer with a secondary receiver clones the metadata into a fresh
/// token for that account, and every supply comes out right.
#[test]
fn mutation_clones_metadata() {
    let mut contract = Contract::new_default_meta(deployer());
    contract.nft_mint(plain_meta("patient zero"), alice());
    contract
        .nft_transfer(alice(), bob(), 0, Some(carol()), None, false, None)
        .unwrap();
    assert_eq!(bob(), contract.nft_token(0).unwrap().owner_id);
    let mutant = contract.nft_token(1).unwrap();
    assert_eq!(carol(), mutant.owner_id);
    assert_eq!(1u64, mutant.token_id);
    let original_meta = contract.nft_token_metadata(0).unwrap();
    let mutant_meta = contract.nft_token_metadata(1).unwrap();
    assert_eq!(original_meta.title, mutant_meta.title);
    assert_eq!(Some("patient zero".to_string()), mutant_meta.title);
    assert_eq!(0, contract.nft_supply_for_owner(alice()));
    assert_eq!(1, contract.nft_supply_for_owner(bob()));
    assert_eq!(1, contract.nft_supply_for_owner(carol()));
}

/// Identifiers grow monotonically across mints and mutation clones.
#[test]
fn counter_is_monotonic() {
    let mut contract = Contract::new_default_meta(deployer());
    let first = contract.nft_mint(plain_meta("a"), alice());
    let second = contract.nft_mint(plain_meta("b"), alice());
    assert!(second > first);
    contract
        .nft_transfer(alice(), bob(), first, Some(carol()), None, false, None)
        .unwrap();
    // the mutation clone took the next identifier
    assert_eq!(carol(), contract.nft_token(2).unwrap().owner_id);
    assert_eq!(3u64, contract.next_token_id);
}

/// Registering twice leaves the same list as registering once.
#[test]
fn register_is_idempotent() {
    let mut contract = Contract::new_default_meta(deployer());
    contract.vaxxx(alice());
    contract.vaxxx(alice());
    assert_eq!(1, contract.vaxxxed.len());
    assert_eq!(vec![alice()], contract.vaxxx_list());
    assert!(contract.vaxxx_pass(alice()));
}

/// A protected (registered) secondary receiver suppresses the mutation.
#[test]
fn mutation_suppressed_for_vaxxxed() {
    let mut contract = Contract::new_default_meta(deployer());
    contract.vaxxx(carol());
    contract.nft_mint(plain_meta("one"), alice());
    contract
        .nft_transfer(alice(), bob(), 0, Some(carol()), None, false, None)
        .unwrap();
    assert!(contract.nft_token(1).is_none());
    assert_eq!(0, contract.nft_supply_for_owner(carol()));
    assert_eq!(1u64, contract.next_token_id);
}

/// A secondary receiver equal to the primary receiver gets no clone.
#[test]
fn mutation_skipped_for_primary_receiver() {
    let mut contract = Contract::new_default_meta(deployer());
    contract.nft_mint(plain_meta("one"), alice());
    contract
        .nft_transfer(alice(), bob(), 0, Some(bob()), None, false, None)
        .unwrap();
    assert!(contract.nft_token(1).is_none());
    assert_eq!(1, contract.nft_supply_for_owner(bob()));
}

/// Transferring an unknown identifier fails with NotFound.
#[test]
fn transfer_unknown_token() {
    let mut contract = Contract::new_default_meta(deployer());
    let result = contract.nft_transfer(alice(), bob(), 5, None, None, false, None);
    assert_eq!(Err(NftError::NotFound), result);
}

/// A caller who is not the owner and supplies no approval is unauthorized.
#[test]
fn transfer_unauthorized_caller() {
    let mut contract = Contract::new_default_meta(deployer());
    contract.nft_mint(plain_meta("one"), alice());
    let result = contract.nft_transfer(bob(), carol(), 0, None, None, false, None);
    assert_eq!(Err(NftError::Unauthorized), result);
    assert_eq!(alice(), contract.nft_token(0).unwrap().owner_id);
}

/// A supplied approval that the collaborator reports stale fails as such.
#[test]
fn transfer_stale_approval() {
    let mut contract = Contract::new_default_meta(deployer());
    contract.nft_mint(plain_meta("one"), alice());
    let result = contract.nft_transfer(bob(), carol(), 0, None, Some(7), false, None);
    assert_eq!(Err(NftError::StaleApproval), result);
}

/// A still-current approval authorizes a third-party transfer.
#[test]
fn transfer_with_current_approval() {
    let mut contract = Contract::new_default_meta(deployer());
    contract.nft_mint(plain_meta("one"), alice());
    contract
        .nft_transfer(bob(), carol(), 0, None, Some(7), true, None)
        .unwrap();
    assert_eq!(carol(), contract.nft_token(0).unwrap().owner_id);
}

/// Transferring a token to its current owner is an error, not a silent
/// success.
#[test]
fn transfer_to_current_owner() {
    let mut contract = Contract::new_default_meta(deployer());
    contract.nft_mint(plain_meta("one"), alice());
    let result = contract.nft_transfer(alice(), alice(), 0, None, None, false, None);
    assert_eq!(Err(NftError::NoOpTransfer), result);
}

/// Registration order is enumeration order, and unknown accounts are not
/// registered.
#[test]
fn vaxxx_list_keeps_order() {
    let mut contract = Contract::new_default_meta(deployer());
    contract.vaxxx(alice());
    contract.vaxxx(bob());
    assert_eq!(vec![alice(), bob()], contract.vaxxx_list());
    assert!(contract.vaxxx_pass(alice()));
    assert!(!contract.vaxxx_pass(carol()));
}

/// Each error kind carries its human-readable message.
#[test]
fn error_messages() {
    assert_eq!("Account not infected.", NftError::NothingToCure.message());
    assert_eq!("Token not found.", NftError::NotFound.message());
}

/// Curing moves every held token to the sink, in enumeration order.
#[test]
fn cure_appends_to_sink_in_order() {
    let mut contract = Contract::new_default_meta(deployer());
    contract.nft_mint(plain_meta("a"), alice());
    contract.nft_mint(plain_meta("b"), bob());
    contract.nft_mint(plain_meta("c"), alice());
    contract.nft_cure(alice()).unwrap();
    assert_eq!(vec![0u64, 2u64], contract.nft_tokens_for_owner("burn.near".to_string()));
    assert_eq!(1, contract.nft_supply_for_owner(bob()));
    assert_eq!(0, contract.nft_supply_for_owner(alice()));
}
