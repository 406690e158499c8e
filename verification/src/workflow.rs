//! The decisions of the `aegis` command line: how prompts are shown, which
//! flags a new file gets, how an existing output is handled, which keyfile
//! and password a decryption uses, and what `info` reports. The program
//! performs the prompts and file operations and hands the answers back.

use vstd::prelude::*;

use crate::header::{Header, FLAG_COMPRESSED, FLAG_DIRECTORY, FLAG_KEYFILE, FLAG_MASTER_KEY, HEADER_LEN};

verus! {

/// Password attempts that a dialog-driven decryption allows.
pub const MAX_ATTEMPTS: u32 = 3;

/// Whether prompts use dialogs: forced on, forced off, or on unless both
/// stdin and stderr are terminals.
pub fn gui_mode(force_gui: bool, force_no_gui: bool, stdin_is_terminal: bool, stderr_is_terminal: bool) -> (g: bool)
    ensures
        g == (force_gui || (!force_no_gui && !(stdin_is_terminal && stderr_is_terminal))),
{
    if force_gui {
        return true;
    }
    if force_no_gui {
        return false;
    }
    !(stdin_is_terminal && stderr_is_terminal)
}

/// The refusal for a password that a user typed, if any.
pub fn password_problem(password: &str) -> (r: Option<&'static str>)
    ensures
        r == (if password@.len() == 0 { Some("password cannot be empty") } else { None::<&'static str> }),
{
    if password.is_empty() {
        Some("password cannot be empty")
    } else {
        None
    }
}

/// The refusal for a password and its confirmation, if any.
pub fn confirmation_problem(password: &String, confirm: &String) -> (r: Option<&'static str>)
    ensures
        r == (if password@ != confirm@ { Some("passwords do not match") } else { None::<&'static str> }),
{
    if *password != *confirm {
        Some("passwords do not match")
    } else {
        None
    }
}

/// Whether two strings hold the same characters.
pub(crate) fn same_text(a: &str, b: &str) -> (r: bool)
    ensures
        r == (a@ == b@),
{
    let n = a.unicode_len();
    let m = b.unicode_len();
    if n != m {
        return false;
    }
    let mut i: usize = 0;
    while i < n
        invariant
            n == a@.len(),
            m == b@.len(),
            n == m,
            i <= n,
            forall|k: int| 0 <= k < i ==> a@[k] == b@[k],
        decreases n - i,
    {
        if a.get_char(i) != b.get_char(i) {
            return false;
        }
        i = i + 1;
    }
    assert(a@ =~= b@);
    true
}

/// Whether a terminal answer (trimmed, lower-cased) to a `[Y/n]` question
/// means yes: empty (the default), or yes in English or Italian.
pub fn confirms_yes(answer: &str) -> (r: bool)
    ensures
        r == (answer@.len() == 0 || answer@ == "y"@ || answer@ == "yes"@ || answer@ == "s"@ || answer@ == "si"@
            || answer@ == "sì"@),
{
    answer.is_empty() || same_text(answer, "y") || same_text(answer, "yes") || same_text(answer, "s")
        || same_text(answer, "si") || same_text(answer, "sì")
}

/// The choice that a terminal answer (trimmed, lower-cased) to
/// `[R]eplace, [K]eep both, or [C]ancel? [K]` means; anything else keeps both.
pub fn overwrite_answer(answer: &str) -> (c: Overwrite)
    ensures
        c == (if answer@ == "r"@ || answer@ == "replace"@ {
            Overwrite::Replace
        } else if answer@ == "c"@ || answer@ == "cancel"@ {
            Overwrite::Cancel
        } else {
            Overwrite::KeepBoth
        }),
{
    if same_text(answer, "r") || same_text(answer, "replace") {
        Overwrite::Replace
    } else if same_text(answer, "c") || same_text(answer, "cancel") {
        Overwrite::Cancel
    } else {
        Overwrite::KeepBoth
    }
}

/// `init` refuses to replace a stored master password unless forced.
pub fn init_refused(force: bool, already_set: bool) -> (b: bool)
    ensures
        b == (!force && already_set),
{
    !force && already_set
}

/// Compression applies to directories only: asking for it on a file earns
/// a note on the terminal.
pub fn compress_ignored_note(compress: bool, is_dir: bool, gui_mode: bool) -> (b: bool)
    ensures
        b == (compress && !is_dir && !gui_mode),
{
    compress && !is_dir && !gui_mode
}

/// The header flags besides the directory flag that a new encryption sets.
pub open spec fn extra_flags_spec(use_master: bool, use_keyfile: bool, compress: bool, is_dir: bool) -> u8 {
    (if use_master { FLAG_MASTER_KEY } else { 0u8 }) | (if use_keyfile { FLAG_KEYFILE } else { 0u8 }) | (if compress
        && is_dir { FLAG_COMPRESSED } else { 0u8 })
}

/// Flags for the password source, the keyfile, and compression, which only
/// applies to directories.
pub fn extra_flags(use_master: bool, use_keyfile: bool, compress: bool, is_dir: bool) -> (f: u8)
    ensures
        f == extra_flags_spec(use_master, use_keyfile, compress, is_dir),
{
    let master_flag = if use_master { FLAG_MASTER_KEY } else { 0u8 };
    let keyfile_flag = if use_keyfile { FLAG_KEYFILE } else { 0u8 };
    let compress_flag = if compress && is_dir { FLAG_COMPRESSED } else { 0u8 };
    master_flag | keyfile_flag | compress_flag
}

/// The extra flags are known flags, never the directory flag, and each says
/// exactly what was chosen; compression is marked only for directories.
pub proof fn lemma_extra_flags(use_master: bool, use_keyfile: bool, compress: bool, is_dir: bool)
    ensures
        ({
            let f = extra_flags_spec(use_master, use_keyfile, compress, is_dir);
            &&& f & !crate::header::KNOWN_FLAGS == 0
            &&& f & FLAG_DIRECTORY == 0
            &&& (f & FLAG_MASTER_KEY != 0) == use_master
            &&& (f & FLAG_KEYFILE != 0) == use_keyfile
            &&& (f & FLAG_COMPRESSED != 0) == (compress && is_dir)
        }),
{
    let a: u8 = if use_master { 2u8 } else { 0u8 };
    let b: u8 = if use_keyfile { 4u8 } else { 0u8 };
    let c: u8 = if compress && is_dir { 8u8 } else { 0u8 };
    assert(((a | b | c) & !15u8 == 0) && ((a | b | c) & 1u8 == 0) && (((a | b | c) & 2u8 != 0) == (a == 2u8))
        && (((a | b | c) & 4u8 != 0) == (b == 4u8)) && (((a | b | c) & 8u8 != 0) == (c == 8u8))) by (bit_vector)
        requires
            a == 0u8 || a == 2u8,
            b == 0u8 || b == 4u8,
            c == 0u8 || c == 8u8,
    ;
}

/// How the password source and the keyfile of a new encryption are chosen.
#[derive(Clone, Copy, Debug, PartialEq, Eq)]
pub enum EncryptMenu {
    /// Use the flags as given (`ask`, and the keyfile from the command line).
    Settled { ask: bool },
    /// No master password yet: offer to set one now or to use a one-off one.
    FirstTimeSetup,
    /// The password source is decided: ask only whether to add a keyfile.
    KeyfileQuestion,
    /// The keyfile is decided: ask only master or custom password.
    PasswordSourceMenu,
    /// Nothing is decided: offer master or custom, each with or without a keyfile.
    FullMenu,
}

pub open spec fn encrypt_menu_spec(gui_mode: bool, ask: bool, keyfile_given: bool, master_set: bool) -> EncryptMenu {
    if !gui_mode {
        EncryptMenu::Settled { ask }
    } else if !ask && !master_set {
        EncryptMenu::FirstTimeSetup
    } else if (ask || !master_set) && keyfile_given {
        EncryptMenu::Settled { ask: true }
    } else if ask || !master_set {
        EncryptMenu::KeyfileQuestion
    } else if keyfile_given {
        EncryptMenu::PasswordSourceMenu
    } else {
        EncryptMenu::FullMenu
    }
}

/// Command-line flags (`--ask`, `--keyfile`) always win; in dialog mode the
/// menus fill in whatever they left open.
pub fn encrypt_menu(gui_mode: bool, ask: bool, keyfile_given: bool, master_set: bool) -> (m: EncryptMenu)
    ensures
        m == encrypt_menu_spec(gui_mode, ask, keyfile_given, master_set),
{
    if !gui_mode {
        return EncryptMenu::Settled { ask };
    }
    if !ask && !master_set {
        return EncryptMenu::FirstTimeSetup;
    }
    let pwd_decided = ask || !master_set;
    if pwd_decided && keyfile_given {
        return EncryptMenu::Settled { ask: true };
    }
    if pwd_decided {
        EncryptMenu::KeyfileQuestion
    } else if keyfile_given {
        EncryptMenu::PasswordSourceMenu
    } else {
        EncryptMenu::FullMenu
    }
}

/// An answer to one of the encryption menus.
#[derive(Clone, Copy, Debug, PartialEq, Eq)]
pub enum MenuAnswer {
    SetMasterNow,
    Master,
    MasterWithKeyfile,
    Custom,
    CustomWithKeyfile,
    /// The keyfile question answered yes.
    AddKeyfile,
    /// The keyfile question answered no.
    NoKeyfile,
    /// The dialog was closed.
    Dismissed,
}

/// What to do after a menu answer.
#[derive(Clone, Copy, Debug, PartialEq, Eq)]
pub enum MenuOutcome {
    /// Stop: the user cancelled.
    Cancel,
    /// Ask for a new master password, store it, then encrypt with it.
    SetMasterThenUseIt,
    /// Encrypt with a custom password when `ask`, else the master; pick a
    /// keyfile in a dialog when `pick_keyfile`, else keep the one given.
    Choose { ask: bool, pick_keyfile: bool },
}

pub open spec fn menu_outcome_spec(menu: EncryptMenu, answer: MenuAnswer) -> MenuOutcome {
    match menu {
        EncryptMenu::Settled { ask } => MenuOutcome::Choose { ask, pick_keyfile: false },
        EncryptMenu::FirstTimeSetup => match answer {
            MenuAnswer::Dismissed => MenuOutcome::Cancel,
            MenuAnswer::SetMasterNow => MenuOutcome::SetMasterThenUseIt,
            _ => MenuOutcome::Choose { ask: true, pick_keyfile: false },
        },
        EncryptMenu::KeyfileQuestion => match answer {
            MenuAnswer::AddKeyfile => MenuOutcome::Choose { ask: true, pick_keyfile: true },
            _ => MenuOutcome::Choose { ask: true, pick_keyfile: false },
        },
        EncryptMenu::PasswordSourceMenu => match answer {
            MenuAnswer::Dismissed => MenuOutcome::Cancel,
            MenuAnswer::Custom => MenuOutcome::Choose { ask: true, pick_keyfile: false },
            _ => MenuOutcome::Choose { ask: false, pick_keyfile: false },
        },
        EncryptMenu::FullMenu => match answer {
            MenuAnswer::Dismissed => MenuOutcome::Cancel,
            MenuAnswer::Custom => MenuOutcome::Choose { ask: true, pick_keyfile: false },
            MenuAnswer::CustomWithKeyfile => MenuOutcome::Choose { ask: true, pick_keyfile: true },
            MenuAnswer::MasterWithKeyfile => MenuOutcome::Choose { ask: false, pick_keyfile: true },
            _ => MenuOutcome::Choose { ask: false, pick_keyfile: false },
        },
    }
}

/// The decision that a menu answer leads to.
pub fn menu_outcome(menu: EncryptMenu, answer: MenuAnswer) -> (o: MenuOutcome)
    ensures
        o == menu_outcome_spec(menu, answer),
{
    match menu {
        EncryptMenu::Settled { ask } => MenuOutcome::Choose { ask, pick_keyfile: false },
        EncryptMenu::FirstTimeSetup => match answer {
            MenuAnswer::Dismissed => MenuOutcome::Cancel,
            MenuAnswer::SetMasterNow => MenuOutcome::SetMasterThenUseIt,
            _ => MenuOutcome::Choose { ask: true, pick_keyfile: false },
        },
        EncryptMenu::KeyfileQuestion => match answer {
            MenuAnswer::AddKeyfile => MenuOutcome::Choose { ask: true, pick_keyfile: true },
            _ => MenuOutcome::Choose { ask: true, pick_keyfile: false },
        },
        EncryptMenu::PasswordSourceMenu => match answer {
            MenuAnswer::Dismissed => MenuOutcome::Cancel,
            MenuAnswer::Custom => MenuOutcome::Choose { ask: true, pick_keyfile: false },
            _ => MenuOutcome::Choose { ask: false, pick_keyfile: false },
        },
        EncryptMenu::FullMenu => match answer {
            MenuAnswer::Dismissed => MenuOutcome::Cancel,
            MenuAnswer::Custom => MenuOutcome::Choose { ask: true, pick_keyfile: false },
            MenuAnswer::CustomWithKeyfile => MenuOutcome::Choose { ask: true, pick_keyfile: true },
            MenuAnswer::MasterWithKeyfile => MenuOutcome::Choose { ask: false, pick_keyfile: true },
            _ => MenuOutcome::Choose { ask: false, pick_keyfile: false },
        },
    }
}

/// `--ask` always ends in a custom password, and `--keyfile` is never
/// replaced by a picked one, whatever the menus are answered; without
/// dialogs the flags are taken as they are.
pub proof fn lemma_cli_flags_win(gui_mode: bool, ask: bool, keyfile_given: bool, master_set: bool, answer: MenuAnswer)
    ensures
        ({
            let o = menu_outcome_spec(encrypt_menu_spec(gui_mode, ask, keyfile_given, master_set), answer);
            &&& ask ==> (o is Cancel || (o matches MenuOutcome::Choose { ask: a, .. } && a))
            &&& keyfile_given ==> !(o matches MenuOutcome::Choose { pick_keyfile: p, .. } && p)
            &&& !gui_mode ==> o == MenuOutcome::Choose { ask, pick_keyfile: false }
        }),
{
}

/// The password source and the keyfile that a menu answer picks are the
/// ones used: in a menu that offers the password source, a custom answer
/// ends in a custom password and a master answer in the stored master; in
/// the full menu a "with keyfile" answer, and only such an answer, leads to
/// picking a keyfile; the keyfile question picks one exactly when answered
/// yes; closing a menu that offers choices cancels; settled flags are
/// taken as they are.
pub proof fn lemma_menu_answer_honoured(menu: EncryptMenu, answer: MenuAnswer)
    ensures
        ({
            let o = menu_outcome_spec(menu, answer);
            let custom = answer == MenuAnswer::Custom || answer == MenuAnswer::CustomWithKeyfile;
            let master = answer == MenuAnswer::Master || answer == MenuAnswer::MasterWithKeyfile;
            let with_keyfile = answer == MenuAnswer::CustomWithKeyfile || answer == MenuAnswer::MasterWithKeyfile;
            &&& (menu == EncryptMenu::FullMenu || (menu == EncryptMenu::PasswordSourceMenu && !with_keyfile))
                && (custom || master) ==> o == MenuOutcome::Choose { ask: custom, pick_keyfile: with_keyfile }
            &&& menu == EncryptMenu::KeyfileQuestion && (answer == MenuAnswer::AddKeyfile || answer
                == MenuAnswer::NoKeyfile) ==> o == MenuOutcome::Choose {
                ask: true,
                pick_keyfile: answer == MenuAnswer::AddKeyfile,
            }
            &&& (menu == EncryptMenu::FullMenu || menu == EncryptMenu::PasswordSourceMenu || menu
                == EncryptMenu::FirstTimeSetup) && answer == MenuAnswer::Dismissed ==> o == MenuOutcome::Cancel
            &&& menu == EncryptMenu::FirstTimeSetup && answer == MenuAnswer::SetMasterNow ==> o
                == MenuOutcome::SetMasterThenUseIt
            &&& (menu matches EncryptMenu::Settled { ask }) ==> o == MenuOutcome::Choose {
                ask: menu->ask,
                pick_keyfile: false,
            }
            &&& menu == EncryptMenu::FirstTimeSetup && custom ==> o == MenuOutcome::Choose {
                ask: true,
                pick_keyfile: false,
            }
        }),
{
}

/// An answer to "the output already exists".
#[derive(Clone, Copy, Debug, PartialEq, Eq)]
pub enum Overwrite {
    Replace,
    KeepBoth,
    Cancel,
}

/// What to do about the requested output path.
#[derive(Clone, Copy, Debug, PartialEq, Eq)]
pub enum CollisionStep {
    /// Nothing is there: write it.
    Proceed,
    /// Ask in a dialog.
    AskDialog,
    /// Ask on the terminal.
    AskTerminal,
    /// Nobody can be asked: refuse to clobber.
    Refuse,
}

pub fn collision_step(collides: bool, gui_mode: bool, gui_available: bool) -> (s: CollisionStep)
    ensures
        s == (if !collides {
            CollisionStep::Proceed
        } else if gui_mode {
            if gui_available {
                CollisionStep::AskDialog
            } else {
                CollisionStep::Refuse
            }
        } else {
            CollisionStep::AskTerminal
        }),
{
    if !collides {
        CollisionStep::Proceed
    } else if gui_mode {
        if gui_available {
            CollisionStep::AskDialog
        } else {
            CollisionStep::Refuse
        }
    } else {
        CollisionStep::AskTerminal
    }
}

/// Where an operation writes once a collision is resolved.
#[derive(Clone, Copy, Debug, PartialEq, Eq)]
pub enum Resolution {
    /// Write to the first free numbered variant `name (n).ext` of the
    /// requested path; when `replace`, move it onto the requested path only
    /// after the write succeeded.
    WriteNumbered { replace: bool },
    /// Do nothing.
    Abort,
}

/// Replace is staged through the numbered path, so that a failed operation
/// never destroys what was there; Keep Both keeps the numbered file.
pub fn resolution(choice: Overwrite) -> (r: Resolution)
    ensures
        r == match choice {
            Overwrite::Replace => Resolution::WriteNumbered { replace: true },
            Overwrite::KeepBoth => Resolution::WriteNumbered { replace: false },
            Overwrite::Cancel => Resolution::Abort,
        },
{
    match choice {
        Overwrite::Replace => Resolution::WriteNumbered { replace: true },
        Overwrite::KeepBoth => Resolution::WriteNumbered { replace: false },
        Overwrite::Cancel => Resolution::Abort,
    }
}

/// How a destructive step is confirmed.
#[derive(Clone, Copy, Debug, PartialEq, Eq)]
pub enum Confirmation {
    Dialog,
    Terminal,
    /// Headless: nobody can be asked, the documented default (yes) applies.
    AssumeYes,
}

pub fn confirmation(gui_mode: bool, gui_available: bool) -> (c: Confirmation)
    ensures
        c == (if gui_mode {
            if gui_available {
                Confirmation::Dialog
            } else {
                Confirmation::AssumeYes
            }
        } else {
            Confirmation::Terminal
        }),
{
    if gui_mode {
        if gui_available {
            Confirmation::Dialog
        } else {
            Confirmation::AssumeYes
        }
    } else {
        Confirmation::Terminal
    }
}

/// The note on the plaintext input that closes an encryption report.
pub fn encrypt_tail(deleted: bool, keep: bool) -> (t: &'static str)
    ensures
        t == (if deleted {
            " (original removed)"
        } else if keep {
            " (original kept)"
        } else {
            " (original kept on user request)"
        }),
{
    if deleted {
        " (original removed)"
    } else if keep {
        " (original kept)"
    } else {
        " (original kept on user request)"
    }
}

/// The note on the encrypted file that closes a decryption report.
pub fn decrypt_tail(deleted: bool, keep: bool) -> (t: &'static str)
    ensures
        t == (if deleted {
            " (encrypted file removed)"
        } else if keep {
            " (encrypted file kept)"
        } else {
            " (encrypted file kept on user request)"
        }),
{
    if deleted {
        " (encrypted file removed)"
    } else if keep {
        " (encrypted file kept)"
    } else {
        " (encrypted file kept on user request)"
    }
}

/// What the header flags of a file to decrypt announce.
#[derive(Clone, Copy, Debug, PartialEq, Eq)]
pub struct DecryptRoute {
    pub is_dir: bool,
    pub was_master: bool,
    pub needs_keyfile: bool,
}

pub fn decrypt_route(flags: u8) -> (r: DecryptRoute)
    ensures
        r.is_dir == (flags & FLAG_DIRECTORY != 0),
        r.was_master == (flags & FLAG_MASTER_KEY != 0),
        r.needs_keyfile == (flags & FLAG_KEYFILE != 0),
{
    DecryptRoute {
        is_dir: flags & FLAG_DIRECTORY != 0,
        was_master: flags & FLAG_MASTER_KEY != 0,
        needs_keyfile: flags & FLAG_KEYFILE != 0,
    }
}

/// Which keyfile a decryption uses.
#[derive(Clone, Copy, Debug, PartialEq, Eq)]
pub enum KeyfilePlan {
    /// The file needs none and none was given.
    NotNeeded,
    /// The file needs one and one was given.
    UseGiven,
    /// The file needs one: let the user pick it in a dialog.
    PickInDialog,
    /// A keyfile was given for a file that needs none.
    RefuseUnexpected,
    /// The file needs a keyfile and none was given on the terminal.
    RefuseMissing,
}

pub open spec fn keyfile_plan_spec(needs_keyfile: bool, keyfile_given: bool, gui_mode: bool) -> KeyfilePlan {
    if !needs_keyfile {
        if keyfile_given {
            KeyfilePlan::RefuseUnexpected
        } else {
            KeyfilePlan::NotNeeded
        }
    } else if keyfile_given {
        KeyfilePlan::UseGiven
    } else if gui_mode {
        KeyfilePlan::PickInDialog
    } else {
        KeyfilePlan::RefuseMissing
    }
}

/// The keyfile mismatch matrix: a keyfile is used exactly when the header
/// asks for one.
pub fn keyfile_plan(needs_keyfile: bool, keyfile_given: bool, gui_mode: bool) -> (p: KeyfilePlan)
    ensures
        p == keyfile_plan_spec(needs_keyfile, keyfile_given, gui_mode),
{
    if !needs_keyfile {
        if keyfile_given {
            KeyfilePlan::RefuseUnexpected
        } else {
            KeyfilePlan::NotNeeded
        }
    } else if keyfile_given {
        KeyfilePlan::UseGiven
    } else if gui_mode {
        KeyfilePlan::PickInDialog
    } else {
        KeyfilePlan::RefuseMissing
    }
}

/// A decryption goes ahead with a keyfile exactly when the header demands
/// one, and never goes ahead against what the header says.
pub proof fn lemma_keyfile_matrix(needs_keyfile: bool, keyfile_given: bool, gui_mode: bool)
    ensures
        ({
            let p = keyfile_plan_spec(needs_keyfile, keyfile_given, gui_mode);
            &&& (p is UseGiven || p is PickInDialog) <==> needs_keyfile && (keyfile_given || gui_mode)
            &&& p is NotNeeded <==> !needs_keyfile && !keyfile_given
            &&& (p is RefuseUnexpected || p is RefuseMissing) <==> (needs_keyfile != keyfile_given && !(
            needs_keyfile && gui_mode))
        }),
{
}

/// A keyfile given on the command line is the one used whenever the file
/// needs one, in dialog mode as on the terminal: with a keyfile given, the
/// plan does not depend on the mode, and it is `UseGiven` exactly when the
/// file needs a keyfile. Without one, a dialog offers to pick it, and the
/// terminal refuses.
pub proof fn lemma_given_keyfile_used(needs_keyfile: bool, gui_a: bool, gui_b: bool)
    ensures
        keyfile_plan_spec(needs_keyfile, true, gui_a) == keyfile_plan_spec(needs_keyfile, true, gui_b),
        needs_keyfile ==> keyfile_plan_spec(needs_keyfile, true, gui_a) == KeyfilePlan::UseGiven,
        !needs_keyfile ==> keyfile_plan_spec(needs_keyfile, true, gui_a) == KeyfilePlan::RefuseUnexpected,
        needs_keyfile ==> keyfile_plan_spec(needs_keyfile, false, true) == KeyfilePlan::PickInDialog,
        needs_keyfile ==> keyfile_plan_spec(needs_keyfile, false, false) == KeyfilePlan::RefuseMissing,
{
}

/// The stored master is tried before any prompt only for files encrypted
/// with the master, and never with `--ask`.
pub fn try_master_first(ask: bool, was_master: bool) -> (b: bool)
    ensures
        b == (!ask && was_master),
{
    !ask && was_master
}

/// How one decryption attempt ended.
#[derive(Clone, Copy, Debug, PartialEq, Eq)]
pub enum AttemptOutcome {
    Decrypted,
    /// Authentication failed: the password (or keyfile) is wrong.
    WrongPassword,
    /// Any other failure.
    Failed,
}

/// What follows one attempt.
#[derive(Clone, Copy, Debug, PartialEq, Eq)]
pub enum NextStep {
    Done,
    /// Prompt again, with this attempt number (counting from 0).
    Retry(u32),
    /// Prompt for a password instead of the master.
    Prompt,
    /// Report the failure.
    Fail,
    /// All attempts were wrong: give up.
    GiveUp,
}

/// After trying the stored master: a wrong master falls back to a prompt.
pub fn after_master_attempt(outcome: AttemptOutcome) -> (n: NextStep)
    ensures
        n == match outcome {
            AttemptOutcome::Decrypted => NextStep::Done,
            AttemptOutcome::WrongPassword => NextStep::Prompt,
            AttemptOutcome::Failed => NextStep::Fail,
        },
{
    match outcome {
        AttemptOutcome::Decrypted => NextStep::Done,
        AttemptOutcome::WrongPassword => NextStep::Prompt,
        AttemptOutcome::Failed => NextStep::Fail,
    }
}

/// After dialog attempt number `attempt` (from 0): a wrong password is
/// retried until `MAX_ATTEMPTS` attempts were made.
pub fn after_dialog_attempt(attempt: u32, outcome: AttemptOutcome) -> (n: NextStep)
    requires
        attempt < MAX_ATTEMPTS,
    ensures
        n == match outcome {
            AttemptOutcome::Decrypted => NextStep::Done,
            AttemptOutcome::Failed => NextStep::Fail,
            AttemptOutcome::WrongPassword => if attempt + 1 < MAX_ATTEMPTS {
                NextStep::Retry((attempt + 1) as u32)
            } else {
                NextStep::GiveUp
            },
        },
        n matches NextStep::Retry(a) ==> a == attempt + 1 && a < MAX_ATTEMPTS,
{
    match outcome {
        AttemptOutcome::Decrypted => NextStep::Done,
        AttemptOutcome::Failed => NextStep::Fail,
        AttemptOutcome::WrongPassword => if attempt + 1 < MAX_ATTEMPTS {
            NextStep::Retry(attempt + 1)
        } else {
            NextStep::GiveUp
        },
    }
}

/// The text of a decryption password dialog.
#[derive(Clone, Copy, Debug, PartialEq, Eq)]
pub enum PromptText {
    /// First attempt on a file encrypted with someone's master password.
    SendersMaster,
    /// First attempt otherwise.
    Plain,
    /// After `attempt` wrong passwords, with `remaining` attempts left.
    WrongSoFar { attempt: u32, remaining: u32 },
}

pub fn prompt_text(attempt: u32, was_master: bool) -> (t: PromptText)
    requires
        attempt < MAX_ATTEMPTS,
    ensures
        t == (if attempt == 0 {
            if was_master {
                PromptText::SendersMaster
            } else {
                PromptText::Plain
            }
        } else {
            PromptText::WrongSoFar { attempt, remaining: (MAX_ATTEMPTS - attempt) as u32 }
        }),
{
    if attempt == 0 {
        if was_master {
            PromptText::SendersMaster
        } else {
            PromptText::Plain
        }
    } else {
        PromptText::WrongSoFar { attempt, remaining: MAX_ATTEMPTS - attempt }
    }
}

/// What `aegis info` reports of a header.
#[derive(Clone, Copy, Debug, PartialEq, Eq)]
pub struct HeaderInfo {
    pub kind: &'static str,
    pub password_source: &'static str,
    pub keyfile_required: &'static str,
    pub compressed: &'static str,
    pub flags: u8,
    pub memory_kib: u32,
    pub iterations: u32,
    pub parallelism: u32,
    pub payload_bytes: usize,
}

/// Whether a file is too short to hold a header.
pub fn too_short_for_header(file_len: usize) -> (b: bool)
    ensures
        b == (file_len < HEADER_LEN),
{
    file_len < HEADER_LEN
}

/// The report for a header read from a file of `file_len` bytes.
pub fn header_info(header: &Header, file_len: usize) -> (i: HeaderInfo)
    ensures
        i.kind == (if header.flags & FLAG_DIRECTORY != 0 { "directory (tar)" } else { "file" }),
        i.password_source == (if header.flags & FLAG_MASTER_KEY != 0 {
            "master password (from keyring)"
        } else {
            "custom password (prompt)"
        }),
        i.keyfile_required == (if header.flags & FLAG_KEYFILE != 0 { "yes" } else { "no" }),
        i.compressed == (if header.flags & FLAG_COMPRESSED != 0 { "yes" } else { "no" }),
        i.flags == header.flags,
        i.memory_kib == header.kdf_params.memory_kib,
        i.iterations == header.kdf_params.iterations,
        i.parallelism == header.kdf_params.parallelism,
        i.payload_bytes == (if file_len >= HEADER_LEN { file_len - HEADER_LEN } else { 0 }),
{
    let flags = header.flags;
    HeaderInfo {
        kind: if flags & FLAG_DIRECTORY != 0 { "directory (tar)" } else { "file" },
        password_source: if flags & FLAG_MASTER_KEY != 0 {
            "master password (from keyring)"
        } else {
            "custom password (prompt)"
        },
        keyfile_required: if flags & FLAG_KEYFILE != 0 { "yes" } else { "no" },
        compressed: if flags & FLAG_COMPRESSED != 0 { "yes" } else { "no" },
        flags,
        memory_kib: header.kdf_params.memory_kib,
        iterations: header.kdf_params.iterations,
        parallelism: header.kdf_params.parallelism,
        payload_bytes: if file_len >= HEADER_LEN { file_len - HEADER_LEN } else { 0 },
    }
}

} // verus!
