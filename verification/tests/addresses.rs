use drift_sdk::addresses::{
    derive_drift_signer, derive_spot_market_account, derive_spot_market_vault,
    market_lookup_table, state_account, token_program_id, StateAccountCell, DEVNET_LOOKUP_TABLE,
    MAINNET_LOOKUP_TABLE, PROGRAM_ID, TOKEN_PROGRAM_ID,
};
use drift_sdk::types::{Context, Pubkey};
use std::str::FromStr;

fn key(text: &str) -> Pubkey {
    Pubkey(solana_sdk::pubkey::Pubkey::from_str(text).unwrap().to_bytes())
}

#[test]
fn fixed_addresses_are_what_their_text_writes() {
    assert_eq!(Pubkey(PROGRAM_ID), key("dRiftyHA39MWEi3m9aunc5MzRF1JYuBsbn6VPcn33UH"));
    assert_eq!(Pubkey(TOKEN_PROGRAM_ID), key("TokenkegQfeZyiNwAJbNbGKPFXCWuBvf9Ss623VQ5DA"));
    assert_eq!(Pubkey(DEVNET_LOOKUP_TABLE), key("FaMS3U4uBojvGn5FSDEPimddcXsCfwkKsFgMVVnDdxGb"));
    assert_eq!(Pubkey(MAINNET_LOOKUP_TABLE), key("D9cnvzswDikQDf53k4HpQ3KJ9y1Fv3HGGDFYMXnK5T6c"));
    assert_eq!(token_program_id(), key("TokenkegQfeZyiNwAJbNbGKPFXCWuBvf9Ss623VQ5DA"));
}

#[test]
fn lookup_table_goes_by_network() {
    assert_eq!(
        market_lookup_table(Context::DevNet),
        key("FaMS3U4uBojvGn5FSDEPimddcXsCfwkKsFgMVVnDdxGb")
    );
    assert_eq!(
        market_lookup_table(Context::MainNet),
        key("D9cnvzswDikQDf53k4HpQ3KJ9y1Fv3HGGDFYMXnK5T6c")
    );
    assert_ne!(market_lookup_table(Context::DevNet), market_lookup_table(Context::MainNet));
}

#[test]
fn state_account_is_derived_from_its_seed() {
    assert_eq!(state_account(), Some(key("5zpq7DvB6UdFFvpmBPspGPNfUGoBRRCE2HHg5u3gxcsN")));
    assert_eq!(
        state_account().map(|a| a.to_bytes()),
        Some([
            74, 62, 239, 75, 3, 200, 42, 113, 89, 158, 160, 122, 22, 238, 75, 207, 109, 206, 49,
            53, 125, 132, 96, 178, 172, 27, 212, 195, 169, 134, 12, 157,
        ])
    );
}

#[test]
fn signer_is_derived_from_its_seed() {
    assert_eq!(derive_drift_signer(), Some(key("JCNCMFXo5M5qwUPg2Utu1u6YWp3MbygxqBsBeXXJfrw")));
}

#[test]
fn spot_market_accounts_are_derived_from_seed_and_index() {
    assert_eq!(
        derive_spot_market_account(0),
        Some(key("6gMq3mRCKf8aP3ttTyYhuijVZ2LGi14oDsBbkgubfLB3"))
    );
    assert_eq!(
        derive_spot_market_account(1),
        Some(key("3x85u7SWkmmr7YQGYhtjARgxwegTLJgkSLRprfXod6rh"))
    );
    // the index is two bytes, the low one first
    assert_eq!(
        derive_spot_market_account(256),
        Some(key("Aa94CDLN55JJS1UER2JM88n5bRAovrRuVbtqrZgmTc7G"))
    );
    assert_eq!(
        derive_spot_market_account(65535),
        Some(key("54X5qACNK2SFGBRHKukkMAmrUMPc3crP41cz5r22Ajyk"))
    );
}

#[test]
fn spot_market_vaults_are_derived_from_seed_and_index() {
    assert_eq!(
        derive_spot_market_vault(0),
        Some(key("GXWqPpjQpdz7KZw9p7f5PX2eGxHAhvpNXiviFkAB8zXg"))
    );
    assert_eq!(
        derive_spot_market_vault(1),
        Some(key("DfYCNezifxAEsQbAJ1b3j6PX3JVBe8fu11KBhxsbw5d2"))
    );
    assert_eq!(
        derive_spot_market_vault(256),
        Some(key("BnDai7RygUcW9TuN3eZgoh8fZ54okXtx3FNiUmAz5Fpd"))
    );
    assert_eq!(
        derive_spot_market_vault(65535),
        Some(key("CwYvSTRuHV7rj13sJGfFmHVMtDoSrkTNWobyKXcTfGHS"))
    );
}

#[test]
fn derivation_tells_markets_and_seeds_apart() {
    assert_ne!(derive_spot_market_account(0), derive_spot_market_account(1));
    assert_ne!(derive_spot_market_vault(0), derive_spot_market_vault(1));
    assert_ne!(derive_spot_market_account(0), derive_spot_market_vault(0));
    assert_ne!(derive_spot_market_account(1), derive_spot_market_account(256));
    assert_ne!(state_account(), derive_drift_signer());
}

#[test]
fn derivation_gives_the_same_address_every_time() {
    for index in [0u16, 1, 7, 255, 256, 4660, 65535] {
        assert!(derive_spot_market_account(index).is_some());
        assert_eq!(derive_spot_market_account(index), derive_spot_market_account(index));
        assert_eq!(derive_spot_market_vault(index), derive_spot_market_vault(index));
    }
    assert_eq!(state_account(), state_account());
    assert_eq!(derive_drift_signer(), derive_drift_signer());
}

#[test]
fn derivation_agrees_with_the_address_search() {
    let program = solana_sdk::pubkey::Pubkey::new_from_array(PROGRAM_ID);
    for index in [0u16, 1, 2, 300, 65535] {
        let (account, _) = solana_sdk::pubkey::Pubkey::find_program_address(
            &[&b"spot_market"[..], &index.to_le_bytes()],
            &program,
        );
        assert_eq!(derive_spot_market_account(index), Some(Pubkey(account.to_bytes())));
        let (vault, _) = solana_sdk::pubkey::Pubkey::find_program_address(
            &[&b"spot_market_vault"[..], &index.to_le_bytes()],
            &program,
        );
        assert_eq!(derive_spot_market_vault(index), Some(Pubkey(vault.to_bytes())));
    }
}

#[test]
fn cell_holds_one_address() {
    let mut cell = StateAccountCell::new();
    let first = cell.get();
    let second = cell.get();
    let third = cell.get();
    assert_eq!(first, state_account());
    assert_eq!(first, second);
    assert_eq!(second, third);
    assert!(first.is_some());
    let mut other = StateAccountCell::new();
    assert_eq!(other.get(), first);
}

#[test]
fn address_keeps_its_bytes() {
    let bytes: [u8; 32] = [
        1, 2, 3, 4, 5, 6, 7, 8, 9, 10, 11, 12, 13, 14, 15, 16, 17, 18, 19, 20, 21, 22, 23, 24, 25,
        26, 27, 28, 29, 30, 31, 32,
    ];
    assert_eq!(Pubkey::new_from_array(bytes).to_bytes(), bytes);
    assert_eq!(Pubkey::new_from_array(bytes), Pubkey(bytes));
}
