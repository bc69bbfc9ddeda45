use loungy::form::{Input, InputKind};
use loungy::list::Accessory;
use loungy::state::StateModel;
use loungy::bitwarden::{
    accounts_by_id_desc, id_in_use, open_vault, VaultView,
    account_form_inputs, password_prompt_inputs,
    account_filter_options, after_login, after_status, login_entries, login_entry, remember, validate_answer,
    validate_instance, validate_required, with_totp, Autofill, AutofillStep, BitwardenAccount, BitwardenItem,
    BitwardenLoginItem, BitwardenUri, BitwardenVaultStatus, UnlockError, UnlockStep,
};

fn login(totp: bool, uris: &[&str]) -> BitwardenLoginItem {
    BitwardenLoginItem {
        username: "me".to_string(),
        password: "pw".to_string(),
        totp: if totp { Some("seed".to_string()) } else { None },
        uris: uris.iter().map(|u| BitwardenUri { uri: u.to_string() }).collect(),
    }
}

fn account() -> BitwardenAccount {
    BitwardenAccount {
        id: "work".to_string(),
        client_id: "cid".to_string(),
        client_secret: "SECRET-REDACTED".to_string(),
        instance: "https://vault.example.com".to_string(),
        password: None,
        session: None,
    }
}

#[test]
fn fields_and_their_actions() {
    assert_eq!(login(false, &[]).fields(), vec!["username", "password"]);
    assert_eq!(login(true, &[]).fields(), vec!["username", "password", "totp"]);
    let (label, shortcut) = login(true, &[]).get_label("totp", true);
    assert_eq!(label, "TOTP 2FA");
    assert_eq!(shortcut.inner.key, "t");
    assert!(shortcut.inner.modifiers.platform);
    let actions = login(true, &[]).get_actions(false);
    let labels: Vec<String> = actions.iter().map(|a| a.label.clone()).collect();
    assert_eq!(labels, vec!["Username", "Password", "TOTP 2FA"]);
    assert!(actions[0].shortcut.as_ref().unwrap().inner.modifiers.control);
}

#[test]
fn login_entries_open_their_first_address() {
    let (item, url) = login_entry(1, "Mail", &login(false, &["mail.example.com", "other.org"]), true);
    assert_eq!(url.as_deref(), Some("https://mail.example.com/"));
    assert_eq!(item.keywords, vec!["Mail", "mail.example.com", "other.org"]);
    assert!(matches!(&item.accessory, Some(Accessory::Text(u)) if u == "me"));
    let labels: Vec<String> = item.actions.iter().map(|a| a.label.clone()).collect();
    assert_eq!(labels, vec!["Autofill", "Open", "Username", "Password"]);
    let (item, url) = login_entry(2, "Bare", &login(true, &[]), true);
    assert!(url.is_none());
    assert_eq!(item.actions.len(), 4);
    let (_, url) = login_entry(3, "Http", &login(false, &["http://a.example"]), true);
    assert_eq!(url.as_deref(), Some("http://a.example/"));
}

#[test]
fn only_logins_are_listed() {
    let items = vec![
        BitwardenItem::Other,
        BitwardenItem::Login { id: "a".to_string(), name: "A".to_string(), notes: None, login: login(false, &[]) },
        BitwardenItem::Other,
        BitwardenItem::Login { id: "b".to_string(), name: "B".to_string(), notes: None, login: login(true, &[]) },
    ];
    let entries = login_entries(&items, &vec![10, 11, 12, 13], true);
    let ids: Vec<u64> = entries.iter().map(|e| e.0.id).collect();
    assert_eq!(ids, vec![11, 13]);
}

#[test]
fn one_time_codes_replace_earlier_ones() {
    let mut values = login(true, &[]).initial_values();
    with_totp(&mut values, "123456");
    with_totp(&mut values, "654321");
    assert_eq!(values.0, vec!["username", "password", "totp"]);
    let codes: Vec<&(String, String)> = values.1.iter().filter(|e| e.0 == "totp").collect();
    assert_eq!(codes.len(), 1);
    assert_eq!(codes[0].1, "654321");
}

#[test]
fn command_environment_and_arguments() {
    let mut a = account();
    let env = a.command_env("/usr/bin", "/data");
    assert_eq!(env[1], ("BITWARDENCLI_APPDATA_DIR".to_string(), "/data/bitwarden/work".to_string()));
    assert_eq!(env.len(), 4);
    a.session = Some("s".to_string());
    assert_eq!(a.command_env("p", "/d").last().unwrap(), &("BW_SESSION".to_string(), "s".to_string()));
    assert_eq!(a.config_args(), vec!["config", "server", "https://vault.example.com"]);
    assert_eq!(BitwardenAccount::unlock_args("pw"), vec!["unlock", "pw", "--raw", "--nointeraction"]);
    assert!(BitwardenAccount::sync_args(true).is_none());
    assert_eq!(BitwardenAccount::sync_args(false).unwrap(), vec!["sync", "-f"]);
}

#[test]
fn unlocking_steps() {
    assert_eq!(after_status(false, None), Err(UnlockError::StatusQueryFailed));
    assert_eq!(after_status(true, None), Err(UnlockError::InvalidStatus));
    assert_eq!(after_status(true, Some(BitwardenVaultStatus::Unlocked)), Ok(UnlockStep::Done));
    assert_eq!(after_status(true, Some(BitwardenVaultStatus::Unauthenticated)), Ok(UnlockStep::LogIn));
    assert_eq!(after_status(true, Some(BitwardenVaultStatus::Locked)), Ok(UnlockStep::Unlock));
    assert_eq!(after_login(false), Err(UnlockError::LoginFailed));
    let mut a = account();
    a.session = Some("old".to_string());
    assert_eq!(a.after_unlock(&vec![]), Err(UnlockError::UnlockFailed));
    assert!(a.session.is_none());
    assert_eq!(a.after_unlock(&vec![0xff, 0xfe]), Err(UnlockError::InvalidSession));
    assert_eq!(a.after_unlock(&b"session-key".to_vec()), Ok(()));
    assert_eq!(a.session.as_deref(), Some("session-key"));
    a.prompted("master", false);
    assert!(a.stored_password().is_none());
    a.prompted("master", true);
    assert_eq!(a.stored_password().as_deref(), Some("master"));
}

#[test]
fn account_filter_needs_two_accounts() {
    assert!(account_filter_options(&vec!["a".to_string()]).is_none());
    let o = account_filter_options(&vec!["a".to_string(), "b".to_string()]).unwrap();
    assert_eq!(o[0], ("".to_string(), "Show All".to_string()));
    assert_eq!(o[2], ("b".to_string(), "b".to_string()));
}

#[test]
fn autofill_waits_then_gives_up() {
    let mut a = Autofill::new(vec!["username".to_string(), "password".to_string()]);
    assert_eq!(a.start(), AutofillStep::Type(0));
    assert_eq!(a.on_typed(Some("me".to_string())), AutofillStep::Type(1));
    for _ in 0..900 {
        assert_eq!(a.on_typed(None), AutofillStep::Wait);
    }
    assert_eq!(a.on_typed(None), AutofillStep::TimedOut);
    let mut b = Autofill::new(vec!["username".to_string()]);
    assert_eq!(b.on_typed(Some("x".to_string())), AutofillStep::Done);
    assert_eq!(b.prev, "x");
}

#[test]
fn form_checks() {
    assert!(remember("YES") && remember("y") && !remember("no"));
    assert!(validate_answer("No").is_none());
    assert_eq!(validate_answer("maybe").as_deref(), Some("Invalid response"));
    assert_eq!(validate_required("", "Password is required").as_deref(), Some("Password is required"));
    assert!(validate_required("x", "m").is_none());
    assert_eq!(validate_instance("").as_deref(), Some("Instance URL is required"));
    assert_eq!(validate_instance("not a url").as_deref(), Some("Invalid URL"));
    assert!(validate_instance("https://bitwarden.com").is_none());
}

#[test]
fn accounts_list_entry() {
    let e = account().list_entry(9);
    assert_eq!(e.keywords, vec!["work"]);
    let labels: Vec<String> = e.actions.iter().map(|a| a.label.clone()).collect();
    assert_eq!(labels, vec!["Edit", "Delete"]);
    assert!(matches!(&e.accessory, Some(Accessory::Text(t)) if t == "https://vault.example.com"));
}

#[test]
fn accounts_are_listed_by_descending_id_and_deleted_back_to_the_root() {
    let mut a = account();
    a.id = "alpha".to_string();
    let mut b = account();
    b.id = "beta".to_string();
    let sorted = accounts_by_id_desc(vec![a, account(), b]);
    let ids: Vec<&str> = sorted.iter().map(|x| x.id.as_str()).collect();
    assert_eq!(ids, vec!["work", "beta", "alpha"]);
    let mut state = StateModel::init();
    state.push("root".to_string());
    state.push("bitwarden_accounts".to_string());
    let dir = account().on_delete("/data", &mut state);
    assert_eq!(dir, "/data/bitwarden/work");
    assert_eq!(state.inner.stack.len(), 1);
    assert_eq!(id_in_use(&vec!["work".to_string()], "work"), Some("Account Identifier already used".to_string()));
    assert_eq!(id_in_use(&vec!["work".to_string()], "home"), None);
}

#[test]
fn the_vault_command_opens_the_form_or_the_list() {
    let mut state = StateModel::init();
    assert_eq!(open_vault(&mut state, 0), VaultView::AccountForm);
    assert_eq!(state.inner.stack.last().unwrap().id, "bitwarden_account_form");
    assert_eq!(open_vault(&mut state, 2), VaultView::VaultList);
    assert_eq!(state.inner.stack.len(), 2);
    assert_eq!(state.inner.stack.last().unwrap().id, "bitwarden_list");
}

fn text_field(i: &Input) -> (String, String, bool) {
    match &i.kind {
        InputKind::TextField { placeholder, value, password, .. } => (placeholder.clone(), value.clone(), *password),
        InputKind::Shortcut { .. } => panic!("not a text field"),
    }
}

#[test]
fn forms_ask_for_an_account_and_a_password() {
    let inputs = account_form_inputs();
    let ids: Vec<&str> = inputs.iter().map(|i| i.id.as_str()).collect();
    assert_eq!(ids, vec!["instance", "id", "client_id", "client_secret"]);
    assert_eq!(text_field(&inputs[0]).1, "https://bitwarden.com");
    assert!(text_field(&inputs[3]).2);
    let mut id = account_form_inputs().remove(1);
    id.validate();
    assert_eq!(id.error, Some("Identifier is required".to_string()));
    let prompt = password_prompt_inputs("work");
    assert_eq!(text_field(&prompt[0]), ("Enter password for work".to_string(), String::new(), true));
    assert_eq!(text_field(&prompt[1]).1, "no");
    let mut remember = password_prompt_inputs("work").remove(1);
    remember.validate();
    assert_eq!(remember.error, None);
}
