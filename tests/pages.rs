use mail_admin_forms::crypto::{Algorithm, EncryptionType, CRYPTO_SCHEMA};
use mail_admin_forms::form::FormData;
use mail_admin_forms::listing::{
    display_name, has_next_page, has_prev_page, login_name, quota_percent, requested_page,
    search_filter, total_pages, PAGE_SIZE,
};
use mail_admin_forms::manage::{load_settings, LoadOutcome, RequestError, SaveNotice, SaveState};
use mail_admin_forms::schema::Builder;

#[test]
fn page_beyond_last_shows_prev_not_next() {
    assert_eq!(PAGE_SIZE, 1);
    assert_eq!(total_pages(1, 1), 1);
    assert!(!has_next_page(3, 1, 1, false));
    assert!(has_prev_page(3));
}

#[test]
fn page_counts_round_up() {
    assert_eq!(total_pages(0, 10), 0);
    assert_eq!(total_pages(10, 10), 1);
    assert_eq!(total_pages(11, 10), 2);
    assert_eq!(total_pages(u64::MAX, 2), u64::MAX / 2 + 1);
}

#[test]
fn next_link_rules() {
    assert!(has_next_page(1, 3, 1, false));
    assert!(!has_next_page(1, 3, 1, true));
    assert!(!has_next_page(3, 3, 1, false));
    assert!(!has_prev_page(1));
    assert!(!has_prev_page(0));
}

#[test]
fn page_parameter() {
    assert_eq!(requested_page(None), 1);
    assert_eq!(requested_page(Some("4")), 4);
    assert_eq!(requested_page(Some("+7")), 7);
    assert_eq!(requested_page(Some("x")), 1);
    assert_eq!(requested_page(Some("-2")), 1);
    assert_eq!(requested_page(Some("")), 1);
    assert_eq!(requested_page(Some("18446744073709551616")), 1);
}

#[test]
fn filter_parameter() {
    assert_eq!(search_filter(None), None);
    assert_eq!(search_filter(Some("   ")), None);
    assert_eq!(search_filter(Some("  john ")), Some("john".to_string()));
}

#[test]
fn account_names() {
    assert_eq!(display_name(Some("John Doe"), Some("john")), "John Doe");
    assert_eq!(display_name(None, Some("john")), "john");
    assert_eq!(display_name(None, None), "Unknown");
    assert_eq!(login_name(None), "unknown");
    assert_eq!(login_name(Some("jane")), "jane");
}

#[test]
fn quota_percentages() {
    assert_eq!(quota_percent(Some(200), Some(50)), Some(25));
    assert_eq!(quota_percent(Some(3), Some(1)), Some(33));
    assert_eq!(quota_percent(Some(200), Some(1)), Some(1));
    assert_eq!(quota_percent(Some(1000), Some(4)), Some(0));
    assert_eq!(quota_percent(Some(1000), Some(5)), Some(1));
    assert_eq!(quota_percent(Some(1), Some(10)), Some(255));
    assert_eq!(quota_percent(Some(0), Some(10)), None);
    assert_eq!(quota_percent(None, Some(10)), None);
    assert_eq!(quota_percent(Some(10), None), None);
}

#[test]
fn load_outcomes() {
    let schemas = Builder::new().build_crypto().build();
    let mut form = FormData::new(schemas.lookup(CRYPTO_SCHEMA));
    let fetched = EncryptionType::PGP { algo: Algorithm::Aes256, certs: "k".to_string() };
    assert_eq!(load_settings(&mut form, Ok(fetched)), LoadOutcome::Populated);
    assert_eq!(form.value("type"), Some("pgp".to_string()));
    assert_eq!(
        load_settings(&mut form, Err(RequestError::Unauthorized)),
        LoadOutcome::RedirectToLogin
    );
    let err = RequestError::Other { message: "down".to_string() };
    assert_eq!(load_settings(&mut form, Err(err.clone())), LoadOutcome::ShowError(err));
    assert_eq!(form.value("certs"), Some("k".to_string()));
}

#[test]
fn save_flow() {
    let schemas = Builder::new().build_crypto().build();
    let mut form = FormData::new(schemas.lookup(CRYPTO_SCHEMA));
    let mut state = SaveState::new();
    assert_eq!(state.begin(&mut form), None);
    assert!(!state.pending);
    form.set("password", "pw");
    let (changes, password) = state.begin(&mut form).unwrap();
    assert_eq!(changes, EncryptionType::Disabled);
    assert_eq!(password, "pw");
    assert!(state.pending);
    assert_eq!(state.begin(&mut form), None);
    assert_eq!(state.finish(&changes, Ok(())), SaveNotice::Disabled);
    assert!(!state.pending);
}

#[test]
fn save_notices() {
    let mut state = SaveState::new();
    let on = EncryptionType::SMIME { algo: Algorithm::Aes128, certs: "c".to_string() };
    assert_eq!(state.finish(&on, Ok(())), SaveNotice::Enabled);
    assert_eq!(
        state.finish(&on, Err(RequestError::Unauthorized)),
        SaveNotice::IncorrectPassword
    );
    let err = RequestError::Other { message: "500".to_string() };
    assert_eq!(state.finish(&on, Err(err.clone())), SaveNotice::Failed(err));
}
