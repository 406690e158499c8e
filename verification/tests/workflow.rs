use aegis::dialog::as_quoted;
use aegis::keychain::{
    account, forgotten_from_removal, master_from_lookup, service, unavailable, KeychainError, KeyringFailure,
};
use aegis::workflow::{
    after_dialog_attempt, after_master_attempt, collision_step, confirmation, confirmation_problem, confirms_yes,
    decrypt_route, overwrite_answer,
    decrypt_tail, encrypt_menu, encrypt_tail, extra_flags, gui_mode, header_info, keyfile_plan, menu_outcome,
    password_problem, prompt_text, resolution, too_short_for_header, try_master_first, AttemptOutcome,
    CollisionStep, Confirmation, EncryptMenu, KeyfilePlan, MenuAnswer, MenuOutcome, NextStep, Overwrite,
    PromptText, Resolution, MAX_ATTEMPTS,
};
use aegis::{Header, KdfParams, FLAG_COMPRESSED, FLAG_DIRECTORY, FLAG_KEYFILE, FLAG_MASTER_KEY};

#[test]
fn gui_mode_follows_flags_then_terminals() {
    assert!(gui_mode(true, false, true, true));
    assert!(!gui_mode(false, true, false, false));
    assert!(!gui_mode(false, false, true, true));
    assert!(gui_mode(false, false, true, false));
    assert!(gui_mode(false, false, false, true));
}

#[test]
fn password_checks() {
    assert_eq!(password_problem(""), Some("password cannot be empty"));
    assert_eq!(password_problem("x"), None);
    assert_eq!(confirmation_problem(&"a".to_string(), &"b".to_string()), Some("passwords do not match"));
    assert_eq!(confirmation_problem(&"a".to_string(), &"a".to_string()), None);
}

#[test]
fn extra_flags_combinations() {
    assert_eq!(extra_flags(false, false, false, false), 0);
    assert_eq!(extra_flags(true, false, false, false), FLAG_MASTER_KEY);
    assert_eq!(extra_flags(false, true, false, false), FLAG_KEYFILE);
    assert_eq!(extra_flags(false, false, true, false), 0);
    assert_eq!(extra_flags(false, false, true, true), FLAG_COMPRESSED);
    assert_eq!(extra_flags(true, true, true, true), FLAG_MASTER_KEY | FLAG_KEYFILE | FLAG_COMPRESSED);
    assert_eq!(extra_flags(true, true, true, true) & FLAG_DIRECTORY, 0);
}

#[test]
fn encrypt_menu_choices() {
    assert_eq!(encrypt_menu(false, true, false, false), EncryptMenu::Settled { ask: true });
    assert_eq!(encrypt_menu(false, false, true, true), EncryptMenu::Settled { ask: false });
    assert_eq!(encrypt_menu(true, false, false, false), EncryptMenu::FirstTimeSetup);
    assert_eq!(encrypt_menu(true, true, true, true), EncryptMenu::Settled { ask: true });
    assert_eq!(encrypt_menu(true, true, false, true), EncryptMenu::KeyfileQuestion);
    assert_eq!(encrypt_menu(true, false, true, true), EncryptMenu::PasswordSourceMenu);
    assert_eq!(encrypt_menu(true, false, false, true), EncryptMenu::FullMenu);
}

#[test]
fn menu_answers() {
    assert_eq!(menu_outcome(EncryptMenu::FirstTimeSetup, MenuAnswer::SetMasterNow), MenuOutcome::SetMasterThenUseIt);
    assert_eq!(
        menu_outcome(EncryptMenu::FirstTimeSetup, MenuAnswer::Custom),
        MenuOutcome::Choose { ask: true, pick_keyfile: false }
    );
    assert_eq!(menu_outcome(EncryptMenu::FirstTimeSetup, MenuAnswer::Dismissed), MenuOutcome::Cancel);
    assert_eq!(
        menu_outcome(EncryptMenu::KeyfileQuestion, MenuAnswer::AddKeyfile),
        MenuOutcome::Choose { ask: true, pick_keyfile: true }
    );
    assert_eq!(
        menu_outcome(EncryptMenu::KeyfileQuestion, MenuAnswer::NoKeyfile),
        MenuOutcome::Choose { ask: true, pick_keyfile: false }
    );
    assert_eq!(
        menu_outcome(EncryptMenu::PasswordSourceMenu, MenuAnswer::Master),
        MenuOutcome::Choose { ask: false, pick_keyfile: false }
    );
    assert_eq!(menu_outcome(EncryptMenu::PasswordSourceMenu, MenuAnswer::Dismissed), MenuOutcome::Cancel);
    assert_eq!(
        menu_outcome(EncryptMenu::FullMenu, MenuAnswer::MasterWithKeyfile),
        MenuOutcome::Choose { ask: false, pick_keyfile: true }
    );
    assert_eq!(
        menu_outcome(EncryptMenu::FullMenu, MenuAnswer::CustomWithKeyfile),
        MenuOutcome::Choose { ask: true, pick_keyfile: true }
    );
    assert_eq!(
        menu_outcome(EncryptMenu::Settled { ask: false }, MenuAnswer::Dismissed),
        MenuOutcome::Choose { ask: false, pick_keyfile: false }
    );
}

#[test]
fn collisions() {
    assert_eq!(collision_step(false, true, false), CollisionStep::Proceed);
    assert_eq!(collision_step(true, true, true), CollisionStep::AskDialog);
    assert_eq!(collision_step(true, true, false), CollisionStep::Refuse);
    assert_eq!(collision_step(true, false, false), CollisionStep::AskTerminal);
    assert_eq!(resolution(Overwrite::Replace), Resolution::WriteNumbered { replace: true });
    assert_eq!(resolution(Overwrite::KeepBoth), Resolution::WriteNumbered { replace: false });
    assert_eq!(resolution(Overwrite::Cancel), Resolution::Abort);
}

#[test]
fn confirmations_and_tails() {
    assert_eq!(confirmation(true, true), Confirmation::Dialog);
    assert_eq!(confirmation(true, false), Confirmation::AssumeYes);
    assert_eq!(confirmation(false, true), Confirmation::Terminal);
    assert_eq!(encrypt_tail(true, false), " (original removed)");
    assert_eq!(encrypt_tail(false, true), " (original kept)");
    assert_eq!(encrypt_tail(false, false), " (original kept on user request)");
    assert_eq!(decrypt_tail(true, true), " (encrypted file removed)");
    assert_eq!(decrypt_tail(false, true), " (encrypted file kept)");
    assert_eq!(decrypt_tail(false, false), " (encrypted file kept on user request)");
}

#[test]
fn decrypt_routing() {
    let r = decrypt_route(FLAG_DIRECTORY | FLAG_KEYFILE);
    assert!(r.is_dir && !r.was_master && r.needs_keyfile);
    assert_eq!(keyfile_plan(false, true, false), KeyfilePlan::RefuseUnexpected);
    assert_eq!(keyfile_plan(false, false, true), KeyfilePlan::NotNeeded);
    assert_eq!(keyfile_plan(true, true, false), KeyfilePlan::UseGiven);
    assert_eq!(keyfile_plan(true, false, true), KeyfilePlan::PickInDialog);
    assert_eq!(keyfile_plan(true, false, false), KeyfilePlan::RefuseMissing);
    assert!(try_master_first(false, true));
    assert!(!try_master_first(true, true));
    assert!(!try_master_first(false, false));
    assert_eq!(after_master_attempt(AttemptOutcome::WrongPassword), NextStep::Prompt);
    assert_eq!(after_master_attempt(AttemptOutcome::Failed), NextStep::Fail);
    assert_eq!(after_master_attempt(AttemptOutcome::Decrypted), NextStep::Done);
}

#[test]
fn dialog_attempts_stop_after_three() {
    let mut attempt = 0;
    let mut prompts = 0;
    loop {
        prompts += 1;
        match after_dialog_attempt(attempt, AttemptOutcome::WrongPassword) {
            NextStep::Retry(a) => attempt = a,
            NextStep::GiveUp => break,
            other => panic!("unexpected {other:?}"),
        }
    }
    assert_eq!(prompts, MAX_ATTEMPTS);
    assert_eq!(prompt_text(0, true), PromptText::SendersMaster);
    assert_eq!(prompt_text(0, false), PromptText::Plain);
    assert_eq!(prompt_text(2, true), PromptText::WrongSoFar { attempt: 2, remaining: 1 });
}

#[test]
fn info_report() {
    let h = Header {
        flags: FLAG_DIRECTORY | FLAG_MASTER_KEY,
        kdf_params: KdfParams::default_strong(),
        salt: [0u8; 16],
        nonce_prefix: [0u8; 19],
    };
    let i = header_info(&h, 1000);
    assert_eq!(i.kind, "directory (tar)");
    assert_eq!(i.password_source, "master password (from keyring)");
    assert_eq!(i.keyfile_required, "no");
    assert_eq!(i.compressed, "no");
    assert_eq!(i.payload_bytes, 936);
    assert_eq!(header_info(&h, 10).payload_bytes, 0);
    assert!(too_short_for_header(63));
    assert!(!too_short_for_header(64));
}

#[test]
fn applescript_quoting() {
    assert_eq!(as_quoted("plain"), "\"plain\"");
    assert_eq!(as_quoted("say \"hi\""), "\"say \\\"hi\\\"\"");
    assert_eq!(as_quoted("a\\b"), "\"a\\\\b\"");
    assert_eq!(as_quoted("città"), "\"città\"");
    assert_eq!(as_quoted(""), "\"\"");
}

#[test]
fn keychain_answers() {
    assert_eq!(service(), "aegis");
    assert_eq!(account(), "master");
    assert!(matches!(master_from_lookup(Ok("pw".to_string())), Ok(Some(p)) if p == "pw"));
    assert!(matches!(master_from_lookup(Err(KeyringFailure::NoEntry("none".to_string()))), Ok(None)));
    assert!(matches!(
        master_from_lookup(Err(KeyringFailure::Other("locked".to_string()))),
        Err(KeychainError::Unavailable(m)) if m == "locked"
    ));
    assert!(matches!(forgotten_from_removal(Ok(())), Ok(true)));
    assert!(matches!(forgotten_from_removal(Err(KeyringFailure::NoEntry("none".to_string()))), Ok(false)));
    assert!(matches!(
        forgotten_from_removal(Err(KeyringFailure::Other("bus".to_string()))),
        Err(KeychainError::Unavailable(m)) if m == "bus"
    ));
    assert!(matches!(
        unavailable(KeyringFailure::NoEntry("none".to_string())),
        KeychainError::Unavailable(m) if m == "none"
    ));
}

#[test]
fn terminal_answers() {
    for yes in ["", "y", "yes", "s", "si", "sì"] {
        assert!(confirms_yes(yes), "{yes:?}");
    }
    for no in ["n", "no", "yess", "ye", "x"] {
        assert!(!confirms_yes(no), "{no:?}");
    }
    assert_eq!(overwrite_answer("r"), Overwrite::Replace);
    assert_eq!(overwrite_answer("replace"), Overwrite::Replace);
    assert_eq!(overwrite_answer("c"), Overwrite::Cancel);
    assert_eq!(overwrite_answer("cancel"), Overwrite::Cancel);
    assert_eq!(overwrite_answer(""), Overwrite::KeepBoth);
    assert_eq!(overwrite_answer("k"), Overwrite::KeepBoth);
    assert_eq!(overwrite_answer("rep"), Overwrite::KeepBoth);
}

#[test]
fn init_and_compress_rules() {
    assert!(aegis::workflow::init_refused(false, true));
    assert!(!aegis::workflow::init_refused(true, true));
    assert!(!aegis::workflow::init_refused(false, false));
    assert!(aegis::workflow::compress_ignored_note(true, false, false));
    assert!(!aegis::workflow::compress_ignored_note(true, true, false));
    assert!(!aegis::workflow::compress_ignored_note(true, false, true));
    assert!(!aegis::workflow::compress_ignored_note(false, false, false));
}

#[test]
fn preselected_item_is_first_default_else_first() {
    assert_eq!(aegis::dialog::preselected(&[false, true, true]), 1);
    assert_eq!(aegis::dialog::preselected(&[false, false]), 0);
    assert_eq!(aegis::dialog::preselected(&[true]), 0);
}

#[test]
fn label_position_finds_first_matching_label() {
    let labels = ["Master password", "Custom password", "Custom password"];
    assert_eq!(aegis::dialog::label_position(&labels, "Custom password"), Some(1));
    assert_eq!(aegis::dialog::label_position(&labels, "Master password"), Some(0));
    assert_eq!(aegis::dialog::label_position(&labels, "nothing"), None);
    assert_eq!(aegis::dialog::label_position(&[], "x"), None);
}

#[test]
fn dialog_answer_yes_only_for_yes() {
    assert!(aegis::dialog::dialog_said_yes("yes"));
    assert!(!aegis::dialog::dialog_said_yes("no"));
    assert!(!aegis::dialog::dialog_said_yes(""));
}

#[test]
fn error_messages_match_their_variants() {
    assert_eq!(
        aegis::Error::Aead.message(),
        "authenticated decryption failed (wrong password or tampered data)"
    );
    assert_eq!(
        aegis::Error::InvalidLength { expected: 16, got: 3 }.message(),
        "invalid length: expected 16, got 3"
    );
    assert_eq!(aegis::Error::InvalidHeader("bad magic").message(), "invalid file header: bad magic");
    assert_eq!(aegis::Error::ChunkCounterOverflow.message(), "stream chunk counter overflowed");
    assert_eq!(aegis::Error::OutputAlreadyExists.message(), "output path already exists");
    assert_eq!(aegis::Error::Truncated.message(), "encrypted file is truncated or empty");
    let io = aegis::Error::Io(std::io::Error::other("disk on fire"));
    assert_eq!(io.message(), "i/o error: disk on fire");
}

#[test]
fn keychain_error_message() {
    let e = aegis::keychain::KeychainError::Unavailable("no secret service".to_string());
    assert_eq!(e.message(), "system keyring is unavailable: no secret service");
}

#[test]
fn presence_from_lookup_answers() {
    assert!(matches!(aegis::keychain::presence_from_lookup(Ok("pw".to_string())), Ok(true)));
    assert!(matches!(aegis::keychain::presence_from_lookup(Err(aegis::keychain::KeyringFailure::NoEntry("none".to_string()))), Ok(false)));
    match aegis::keychain::presence_from_lookup(Err(aegis::keychain::KeyringFailure::Other("locked".to_string()))) {
        Err(aegis::keychain::KeychainError::Unavailable(m)) => assert_eq!(m, "locked"),
        _ => panic!("expected Unavailable"),
    }
}
