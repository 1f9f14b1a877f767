use sshfm::localization::{Language, Localizer};

#[test]
fn english_texts_come_back_for_known_keys() {
    let l = Localizer::new();
    assert_eq!(l.t(Language::English, "theme_label"), "Theme:");
    assert_eq!(l.t(Language::English, "connect_button"), "Connect");
    assert_eq!(l.t(Language::English, "ssh_file_manager"), "SSH File Manager");
    assert_eq!(
        l.t(Language::English, "directory_name_empty_error"),
        "Directory name cannot be empty."
    );
}

#[test]
fn each_language_has_its_own_text() {
    let l = Localizer::new();
    assert_eq!(l.t(Language::French, "save_button"), "Enregistrer");
    assert_eq!(l.t(Language::Chinese, "delete_button"), "删除");
    assert_eq!(l.t(Language::Arabic, "cancel_button"), "إلغاء");
    assert_eq!(l.t(Language::French, "port_label"), "Port :");
}

#[test]
fn an_unknown_key_is_marked_missing() {
    let l = Localizer::new();
    assert_eq!(l.t(Language::English, "no_such_key"), "MISSING_TRANSLATION");
    assert_eq!(l.t(Language::Chinese, ""), "MISSING_TRANSLATION");
}
