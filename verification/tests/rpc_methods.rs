use zallet::json_rpc::methods::get_notes_count::{self, AccountNotes, GetNotesCount};
use zallet::json_rpc::methods::openrpc::{Generator, MethodTable, ParamSchema, RpcMethod};
use zallet::json_rpc::methods::{get_wallet_info, help, unlock_wallet};
use zallet::json_rpc::server::{LegacyCode, RpcError};
use zallet::keystore::error::KeyStoreError;
use zallet::keystore::store::StorageError;
use zallet::keystore::config::KeyStoreConfig;
use zallet::keystore::db::IdentityRecord;
use zallet::keystore::secret::SecretMaterial;
use zallet::keystore::store::IdentityStore;
use zallet::keystore::KeyStore;

fn keystore(uses_encryption: bool, rows: Vec<IdentityRecord>) -> KeyStore {
    let store = IdentityStore::open(Ok(rows), Ok(vec![])).unwrap();
    KeyStore::new(KeyStoreConfig::new(uses_encryption, String::new(), vec![]), store)
}

fn one_identity() -> SecretMaterial {
    let mut material = SecretMaterial::new();
    material.insert([1u8; 32], b"seed".to_vec());
    material
}

fn table() -> MethodTable {
    let mut methods = MethodTable::new();
    methods.insert("walletpassphrase", RpcMethod { description: "Unlocks the wallet." });
    methods.insert("help", RpcMethod { description: "Lists the commands." });
    methods.insert("z_getnotescount", RpcMethod { description: "Counts the notes." });
    methods.insert("getwalletinfo", RpcMethod { description: "Shows the wallet state." });
    methods
}

#[test]
fn error_codes_are_those_of_zcashd() {
    assert_eq!(LegacyCode::InvalidParameter.code(), -8);
    assert_eq!(LegacyCode::Database.code(), -20);
    assert_eq!(LegacyCode::WalletUnlockNeeded.code(), -13);
    assert_eq!(LegacyCode::WalletPassphraseIncorrect.code(), -14);
    assert_eq!(LegacyCode::WalletWrongEncState.code(), -15);
}

#[test]
fn errors_carry_their_code_and_message() {
    let fixed = LegacyCode::Database.with_static("fixed");
    assert_eq!(fixed.code, LegacyCode::Database);
    assert_eq!(fixed.message, "fixed");
    let made = LegacyCode::InvalidParameter.with_message(format!("made {}", 1));
    assert_eq!(made.code, LegacyCode::InvalidParameter);
    assert_eq!(made.message, "made 1");
}

#[test]
fn walletpassphrase_describes_its_parameters() {
    let mut g = Generator::new();
    let params = unlock_wallet::params(&mut g);
    assert_eq!(params.len(), 2);
    assert_eq!(params[0].name, "passphrase");
    assert_eq!(params[0].description, "The passphrase for decrypting the wallet's age identity.");
    assert!(params[0].required);
    assert_eq!(params[0].schema, ParamSchema::String);
    assert_eq!(params[1].name, "timeout");
    assert_eq!(params[1].description, "Time in seconds after which the wallet wil relock.");
    assert!(params[1].required);
    assert_eq!(params[1].schema, ParamSchema::Uint64);
    assert_eq!(g.schemas(), &vec![ParamSchema::String, ParamSchema::Uint64]);
}

#[test]
fn help_describes_its_parameter() {
    let mut g = Generator::new();
    let params = help::params(&mut g);
    assert_eq!(params.len(), 1);
    assert_eq!(params[0].name, "command");
    assert_eq!(params[0].description, "The command to get help on.");
    assert!(!params[0].required);
    assert_eq!(params[0].schema, ParamSchema::String);
    assert_eq!(g.schemas(), &vec![ParamSchema::String]);
}

#[test]
fn getwalletinfo_has_no_parameters() {
    let mut g = Generator::new();
    assert!(get_wallet_info::params(&mut g).is_empty());
    assert!(g.schemas().is_empty());
}

#[test]
fn generator_records_the_schemas_in_order() {
    let mut g = Generator::new();
    unlock_wallet::params(&mut g);
    help::params(&mut g);
    get_wallet_info::params(&mut g);
    let d = g.param(ParamSchema::Uint64, "n", "A number.", false);
    assert_eq!(d.name, "n");
    assert_eq!(d.description, "A number.");
    assert!(!d.required);
    assert_eq!(
        g.schemas(),
        &vec![ParamSchema::String, ParamSchema::Uint64, ParamSchema::String, ParamSchema::Uint64]
    );
}

#[test]
fn walletpassphrase_refuses_an_unencrypted_wallet() {
    let mut keystore = keystore(false, vec![]);
    let e = unlock_wallet::call(&mut keystore, "hunter2", 60, 1000).unwrap_err();
    assert_eq!(e.code, LegacyCode::WalletWrongEncState);
    assert_eq!(
        e.message,
        "Error: running with an unencrypted wallet, but walletpassphrase was called."
    );
    assert_eq!(keystore.unlocked_until(1000), None);
    assert!(!keystore.is_locked(1000));
}

#[test]
fn walletpassphrase_reports_a_wrong_passphrase_without_repeating_it() {
    let rows = vec![IdentityRecord { seed_fingerprint: [1u8; 32], encrypted_mnemonic: b"junk".to_vec() }];
    let mut keystore = keystore(true, rows);
    let e = unlock_wallet::call(&mut keystore, "hunter2", 60, 1000).unwrap_err();
    assert_eq!(e.code, LegacyCode::WalletPassphraseIncorrect);
    assert_eq!(e.message, "Error: The wallet passphrase entered was incorrect.");
    assert!(!e.message.contains("hunter2"));
    assert!(keystore.is_locked(1000));
    assert_eq!(keystore.unlocked_until(1000), None);
}

#[test]
fn getwalletinfo_omits_the_window_of_an_unencrypted_wallet() {
    let keystore = keystore(false, vec![]);
    let info = get_wallet_info::call(&keystore, 1000).unwrap();
    assert_eq!(info.unlocked_until, None);
}

#[test]
fn getwalletinfo_reports_zero_for_a_locked_wallet() {
    let mut keystore = keystore(true, vec![]);
    assert_eq!(get_wallet_info::call(&keystore, 1000).unwrap().unlocked_until, Some(0));
    assert!(keystore.unlock_with(one_identity(), 60, 1000));
    assert_eq!(get_wallet_info::call(&keystore, 1060).unwrap().unlocked_until, Some(0));
    keystore.lock();
    assert_eq!(get_wallet_info::call(&keystore, 1001).unwrap().unlocked_until, Some(0));
}

#[test]
fn getwalletinfo_reports_the_end_of_the_window() {
    let mut keystore = keystore(true, vec![]);
    assert!(keystore.unlock_with(one_identity(), 60, 1000));
    let info = get_wallet_info::call(&keystore, 1059).unwrap();
    assert_eq!(info.unlocked_until, Some(1060));
    assert_eq!(info.walletversion, 0);
    assert_eq!(info.balance, 0);
    assert_eq!(info.unconfirmed_balance, Some(0));
    assert_eq!(info.immature_balance, 0);
    assert_eq!(info.shielded_balance, "0.00");
    assert_eq!(info.shielded_unconfirmed_balance, Some("0.00".to_string()));
    assert_eq!(info.txcount, 0);
    assert_eq!(info.keypoololdest, 0);
    assert_eq!(info.keypoolsize, 0);
    assert_eq!(info.mnemonic_seedfp, "TODO");
}

#[test]
fn help_lists_the_commands_in_order() {
    let text = help::call(&table(), None).unwrap();
    assert_eq!(text.0, "getwalletinfo\nhelp\nwalletpassphrase\nz_getnotescount\n");
    assert_eq!(help::call(&MethodTable::new(), None).unwrap().0, "");
}

#[test]
fn help_describes_a_command() {
    let text = help::call(&table(), Some("walletpassphrase")).unwrap();
    assert_eq!(text.0, "walletpassphrase\n\nUnlocks the wallet.");
}

#[test]
fn help_does_not_know_other_commands() {
    let text = help::call(&table(), Some("stop")).unwrap();
    assert_eq!(text.0, "help: unknown command: stop\n");
    assert_eq!(help::call(&table(), Some("")).unwrap().0, "help: unknown command: \n");
    assert_eq!(help::call(&table(), Some("hel")).unwrap().0, "help: unknown command: hel\n");
}

#[test]
fn method_table_orders_names_by_their_bytes() {
    let mut methods = MethodTable::new();
    for name in ["b", "a", "B", "ab", "\u{e9}", "z", "_a", ""] {
        methods.insert(name, RpcMethod { description: "d" });
    }
    let mut expected = vec!["b", "a", "B", "ab", "\u{e9}", "z", "_a", ""];
    expected.sort();
    assert_eq!(methods.len(), expected.len());
    for (i, name) in expected.iter().enumerate() {
        assert_eq!(methods.name_at(i), Some(*name));
    }
    assert_eq!(methods.name_at(expected.len()), None);
}

#[test]
fn method_table_replaces_a_description() {
    let mut methods = table();
    methods.insert("help", RpcMethod { description: "New text." });
    assert_eq!(methods.len(), 4);
    assert_eq!(methods.get("help").unwrap().description, "New text.");
    assert_eq!(methods.get("getwalletinfo").unwrap().description, "Shows the wallet state.");
    assert!(methods.get("getinfo").is_none());
}

#[test]
fn notes_are_counted_over_all_accounts() {
    let wallet = vec![
        AccountNotes { sapling: Some(3), orchard: None },
        AccountNotes { sapling: None, orchard: Some(4) },
        AccountNotes { sapling: Some(10), orchard: Some(20) },
    ];
    assert_eq!(
        get_notes_count::call(&wallet, None, None).unwrap(),
        GetNotesCount { sprout: 0, sapling: 13, orchard: 24 }
    );
    assert_eq!(
        get_notes_count::call(&vec![], None, None).unwrap(),
        GetNotesCount { sprout: 0, sapling: 0, orchard: 0 }
    );
}

#[test]
fn notes_are_counted_up_to_the_largest_number() {
    let wallet = vec![
        AccountNotes { sapling: Some(u32::MAX as usize - 1), orchard: Some(u32::MAX as usize) },
        AccountNotes { sapling: Some(1), orchard: Some(0) },
    ];
    assert_eq!(
        get_notes_count::call(&wallet, None, None).unwrap(),
        GetNotesCount { sprout: 0, sapling: u32::MAX, orchard: u32::MAX }
    );
}

#[test]
fn notes_count_refuses_its_parameters() {
    let wallet = vec![AccountNotes { sapling: Some(3), orchard: None }];
    for (minconf, as_of_height) in [(Some(1), None), (None, Some(-1)), (Some(0), Some(100))] {
        let e = get_notes_count::call(&wallet, minconf, as_of_height).unwrap_err();
        assert_eq!(e.code, LegacyCode::InvalidParameter);
        assert_eq!(e.message, "minconf and as_of_height parameters are not yet supported");
        let e = get_notes_count::check_params(minconf, as_of_height).unwrap_err();
        assert_eq!(e.code, LegacyCode::InvalidParameter);
    }
    assert!(get_notes_count::check_params(None, None).is_ok());
}

#[test]
fn notes_count_describes_its_parameters() {
    assert_eq!(
        get_notes_count::PARAM_MINCONF_DESC,
        "Only include notes in transactions confirmed at least this many times."
    );
    assert_eq!(
        get_notes_count::PARAM_AS_OF_HEIGHT_DESC,
        "Execute the query as if it were run when the blockchain was at the height specified by this argument."
    );
}

#[test]
fn keystore_failures_are_reported_apart() {
    let e = RpcError::from_keystore(KeyStoreError::WrongState);
    assert_eq!(e.code, LegacyCode::WalletWrongEncState);
    assert_eq!(e.message, "Error: the wallet does not encrypt its identities.");
    let e = RpcError::from_keystore(KeyStoreError::AuthenticationFailed);
    assert_eq!(e.code, LegacyCode::WalletPassphraseIncorrect);
    assert_eq!(e.message, "Error: The wallet passphrase entered was incorrect.");
    let e = RpcError::from_keystore(KeyStoreError::NotUnlocked);
    assert_eq!(e.code, LegacyCode::WalletUnlockNeeded);
    assert_eq!(e.message, "Error: Please enter the wallet passphrase with walletpassphrase first.");
    for storage in [
        StorageError::Unreachable,
        StorageError::SchemaMissing,
        StorageError::DuplicateFingerprint,
        StorageError::MalformedFingerprint,
    ] {
        let e = RpcError::from_keystore(KeyStoreError::Storage(storage));
        assert_eq!(e.code, LegacyCode::Database);
        assert_eq!(e.message, "Error: the wallet's identity store could not be read.");
    }
}

#[test]
fn walletpassphrase_unlocks_with_the_right_passphrase() {
    let mut recipient = age::scrypt::Recipient::new(age::secrecy::SecretString::from("hunter2"));
    recipient.set_work_factor(2);
    let rows = vec![IdentityRecord {
        seed_fingerprint: [1u8; 32],
        encrypted_mnemonic: age::encrypt(&recipient, b"seed").unwrap(),
    }];
    let mut keystore = keystore(true, rows);
    assert!(unlock_wallet::call(&mut keystore, "hunter2", 60, 1000).is_ok());
    assert_eq!(keystore.unlocked_until(1000), Some(1060));
    assert_eq!(get_wallet_info::call(&keystore, 1000).unwrap().unlocked_until, Some(1060));
    let e = unlock_wallet::call(&mut keystore, "hunter3", 600, 1001).unwrap_err();
    assert_eq!(e.code, LegacyCode::WalletPassphraseIncorrect);
    assert_eq!(keystore.unlocked_until(1001), Some(1060));
}

#[test]
fn walletpassphrase_answers_from_what_was_decrypted() {
    let mut encrypted = keystore(true, vec![]);
    assert!(unlock_wallet::call_with(&mut encrypted, one_identity(), 60, 1000).is_ok());
    assert_eq!(encrypted.unlocked_until(1000), Some(1060));
    let e = unlock_wallet::call_with(&mut encrypted, SecretMaterial::new(), 600, 1001).unwrap_err();
    assert_eq!(e.code, LegacyCode::WalletPassphraseIncorrect);
    assert_eq!(e.message, "Error: The wallet passphrase entered was incorrect.");
    assert_eq!(encrypted.unlocked_until(1001), Some(1060));
    let mut unencrypted = keystore(false, vec![]);
    let e = unlock_wallet::call_with(&mut unencrypted, one_identity(), 60, 1000).unwrap_err();
    assert_eq!(e.code, LegacyCode::WalletWrongEncState);
    assert_eq!(
        e.message,
        "Error: running with an unencrypted wallet, but walletpassphrase was called."
    );
    assert_eq!(unencrypted.deadline(), None);
}

#[test]
fn walletpassphrase_refuses_an_unencrypted_wallet_whatever_the_timeout() {
    let mut unencrypted = keystore(false, vec![]);
    let e = unlock_wallet::call(&mut unencrypted, "hunter2", u64::MAX, 1).unwrap_err();
    assert_eq!(e.code, LegacyCode::WalletWrongEncState);
    assert_eq!(
        e.message,
        "Error: running with an unencrypted wallet, but walletpassphrase was called."
    );
    let e = unlock_wallet::call(&mut unencrypted, "", u64::MAX, u64::MAX).unwrap_err();
    assert_eq!(e.code, LegacyCode::WalletWrongEncState);
    let e = unlock_wallet::call_with(&mut unencrypted, one_identity(), u64::MAX, 1).unwrap_err();
    assert_eq!(e.code, LegacyCode::WalletWrongEncState);
    assert_eq!(unencrypted.deadline(), None);
    assert!(!unencrypted.is_locked(u64::MAX));
    assert_eq!(get_wallet_info::call(&unencrypted, 1).unwrap().unlocked_until, None);
}

#[test]
fn walletpassphrase_rejects_a_wrong_passphrase_whatever_the_timeout() {
    let mut locked = keystore(true, vec![]);
    let e = unlock_wallet::call_with(&mut locked, SecretMaterial::new(), u64::MAX, 1).unwrap_err();
    assert_eq!(e.code, LegacyCode::WalletPassphraseIncorrect);
    assert_eq!(e.message, "Error: The wallet passphrase entered was incorrect.");
    assert!(locked.is_locked(1));
    assert_eq!(locked.unlocked_until(1), None);
    assert_eq!(get_wallet_info::call(&locked, 1).unwrap().unlocked_until, Some(0));

    let mut unlocked = keystore(true, vec![]);
    assert!(unlock_wallet::call_with(&mut unlocked, one_identity(), 60, 1000).is_ok());
    let e = unlock_wallet::call_with(&mut unlocked, SecretMaterial::new(), u64::MAX, u64::MAX)
        .unwrap_err();
    assert_eq!(e.code, LegacyCode::WalletPassphraseIncorrect);
    assert_eq!(unlocked.unlocked_until(1001), Some(1060));
    assert_eq!(unlocked.secret(&[1u8; 32], 1059), Ok(Some(&b"seed".to_vec())));
    assert_eq!(get_wallet_info::call(&unlocked, 1001).unwrap().unlocked_until, Some(1060));
}

#[test]
fn walletpassphrase_rejects_a_wrong_passphrase_with_the_longest_timeout_that_can_be_counted() {
    let rows = vec![IdentityRecord { seed_fingerprint: [1u8; 32], encrypted_mnemonic: b"junk".to_vec() }];
    let mut keystore = keystore(true, rows);
    let e = unlock_wallet::call(&mut keystore, "hunter2", u64::MAX - 1, 1).unwrap_err();
    assert_eq!(e.code, LegacyCode::WalletPassphraseIncorrect);
    assert_eq!(e.message, "Error: The wallet passphrase entered was incorrect.");
    assert!(keystore.is_locked(1));
    assert_eq!(get_wallet_info::call(&keystore, 1).unwrap().unlocked_until, Some(0));
}

#[test]
fn rejected_passphrases_are_answered_alike() {
    let rows = vec![IdentityRecord { seed_fingerprint: [1u8; 32], encrypted_mnemonic: b"junk".to_vec() }];
    let mut keystore = keystore(true, rows);
    let first = unlock_wallet::call(&mut keystore, "hunter2", 60, 1000).unwrap_err();
    let second = unlock_wallet::call(&mut keystore, "correct horse", 86400, 2000).unwrap_err();
    let third = unlock_wallet::call_with(&mut keystore, SecretMaterial::new(), u64::MAX, 3000)
        .unwrap_err();
    assert_eq!(first.code, second.code);
    assert_eq!(first.message, second.message);
    assert_eq!(first.code, third.code);
    assert_eq!(first.message, third.message);
    assert!(!second.message.contains("correct horse"));
    assert!(keystore.is_locked(3000));
}
