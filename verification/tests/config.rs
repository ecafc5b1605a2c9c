use std::path::PathBuf;

use giant_file_exchange::config::{
    authorization_header, normalize_token, validate_hotkey_text, AppSettings,
    HotkeyError, SettingsError, SettingsStore, UrlParts, DEFAULT_API_BASE_URL, DEFAULT_HOTKEY,
};

fn usable() -> AppSettings {
    AppSettings {
        encrypted_token: "encrypted".to_owned(),
        receiver_users: vec!["alice".to_owned()],
        ..Default::default()
    }
}

#[test]
fn normalizes_receivers() {
    let values = AppSettings::normalize_receivers(vec![
        " alice ".to_owned(),
        "ALICE".to_owned(),
        "".to_owned(),
        "bob".to_owned(),
    ]);
    assert_eq!(values, ["alice", "bob"]);
}

#[test]
fn creates_company_authorization_header() {
    assert_eq!(authorization_header(" secret ").unwrap(), "Bear secret");
    assert_eq!(
        authorization_header("Bearer secret").unwrap(),
        "Bear secret"
    );
    assert_eq!(authorization_header("Bear secret").unwrap(), "Bear secret");
    assert!(authorization_header("bad\r\ntoken").is_err());
}

#[test]
fn validates_settings() {
    let mut settings = AppSettings::default();
    assert!(settings.validate_without_token().is_err());
    settings.receiver_users.push("alice".to_owned());
    assert!(settings.validate_without_token().is_ok());
    settings.api_base_url = "http://example.com".to_owned();
    assert!(settings.validate_without_token().is_err());
}

#[test]
fn first_settings_are_the_defaults() {
    let settings = AppSettings::default();
    assert_eq!(settings.api_base_url, DEFAULT_API_BASE_URL);
    assert_eq!(settings.hotkey, DEFAULT_HOTKEY);
    assert_eq!(settings.exchange_type, 2);
    assert_eq!(settings.encrypted_token, "");
    assert!(settings.receiver_users.is_empty());
    assert!(!settings.is_configured());
    assert!(!settings.has_usage_query_config());
}

#[test]
fn each_fault_of_the_settings_is_told() {
    let verdict = |change: fn(&mut AppSettings)| {
        let mut settings = usable();
        change(&mut settings);
        settings.validate_without_token().unwrap_err()
    };
    assert_eq!(
        verdict(|settings| settings.api_base_url = "not a url".to_owned()),
        SettingsError::InvalidUrl
    );
    assert_eq!(
        verdict(|settings| settings.api_base_url = "data:text,x".to_owned()),
        SettingsError::NotHttps
    );
    assert_eq!(
        verdict(|settings| settings.receiver_users.clear()),
        SettingsError::NoReceivers
    );
    assert_eq!(
        verdict(|settings| settings.exchange_type = 3),
        SettingsError::InvalidDirection
    );
    assert_eq!(
        verdict(|settings| settings.hotkey = "U".to_owned()),
        SettingsError::Hotkey(HotkeyError::NoModifier)
    );
    assert_eq!(
        verdict(|settings| settings.hotkey = "Ctrl+UU".to_owned()),
        SettingsError::Hotkey(HotkeyError::Malformed)
    );
    assert_eq!(SettingsError::InvalidUrl.message(), "API 地址格式无效");
    assert_eq!(
        SettingsError::NotHttps.message(),
        "API 地址必须是有效的 HTTPS 地址"
    );
    assert_eq!(
        SettingsError::NoReceivers.message(),
        "请至少填写一个接收人的域账号"
    );
    assert_eq!(SettingsError::InvalidDirection.message(), "传输方向无效");
    assert_eq!(
        SettingsError::Hotkey(HotkeyError::NoModifier).message(),
        "快捷键必须包含至少一个修饰键，例如 Ctrl+Alt+U"
    );
    assert_eq!(
        SettingsError::Hotkey(HotkeyError::Malformed).message(),
        "快捷键格式无效，请使用 Ctrl+Alt+U 这样的格式"
    );
    assert_eq!(SettingsError::MissingToken.message(), "请填写个人令牌");
}

#[test]
fn addresses_are_read_as_urls() {
    let mut settings = usable();
    settings.api_base_url = "  HTTPS://Example.com:8443/base  ".to_owned();
    assert_eq!(settings.validate_without_token(), Ok(()));
    settings.api_base_url = "https://".to_owned();
    assert_eq!(
        settings.validate_without_token(),
        Err(SettingsError::InvalidUrl)
    );
    let url = |scheme: &str, host: Option<&str>| {
        Some(UrlParts {
            scheme: scheme.to_owned(),
            host: host.map(|name| name.to_owned()),
        })
    };
    let settings = usable();
    assert_eq!(settings.validate_with_url(&url("https", Some("h"))), Ok(()));
    assert_eq!(
        settings.validate_with_url(&url("https", None)),
        Err(SettingsError::NotHttps)
    );
    assert_eq!(
        settings.validate_with_url(&None),
        Err(SettingsError::InvalidUrl)
    );
}

#[test]
fn settings_are_saved_where_they_can_be_used() {
    let store = SettingsStore::new(PathBuf::from("data/settings.json"));
    assert_eq!(store.path(), &PathBuf::from("data/settings.json"));
    let mut settings = usable();
    assert!(settings.is_configured());
    assert_eq!(store.save(&settings), Ok(store.path()));
    settings.receiver_users = vec!["bob".to_owned()];
    assert_eq!(store.save(&settings), Ok(store.path()));
    assert_eq!(store.load(Some(settings)).receiver_users, ["bob"]);
    assert_eq!(store.load(None).hotkey, DEFAULT_HOTKEY);
    let mut without_token = usable();
    without_token.encrypted_token.clear();
    assert_eq!(
        store.save(&without_token),
        Err(SettingsError::MissingToken)
    );
}

#[test]
fn usage_queries_need_an_address_and_a_key() {
    let mut settings = usable();
    settings.usage_api_base_url = "http://host".to_owned();
    assert!(!settings.has_usage_query_config());
    settings.encrypted_usage_api_key = "sealed".to_owned();
    assert!(settings.has_usage_query_config());
    settings.usage_api_base_url = "  ".to_owned();
    assert!(!settings.has_usage_query_config());
}

#[test]
fn tokens_lose_a_pasted_prefix() {
    for value in ["secret", " secret ", "BEARER secret", "bear\tsecret", "Bear   secret\n"] {
        assert_eq!(normalize_token(value), "secret");
    }
    assert_eq!(normalize_token("bearer"), "bearer");
    assert_eq!(normalize_token("bearersecret"), "bearersecret");
    assert_eq!(normalize_token("bear bearer x"), "bearer x");
    assert_eq!(normalize_token("\u{3000}令牌\u{3000}"), "令牌");
    assert_eq!(normalize_token(" \t "), "");
    assert_eq!(normalize_token("Bear 令牌"), "令牌");
    assert_eq!(normalize_token("Bearer 令牌"), "令牌");
    assert_eq!(normalize_token("abc令"), "abc令");
    assert_eq!(authorization_header("Bear 令牌").unwrap(), "Bear 令牌");
    assert!(authorization_header("").is_err());
    assert_eq!(
        authorization_header("").unwrap_err().message(),
        "个人令牌无效"
    );
}

#[test]
fn hotkeys_are_modifiers_and_a_key() {
    for value in ["Ctrl+Alt+U", "ctrl + 5", "Super+F1", "win+shift+f24", "Alt++x"] {
        assert_eq!(validate_hotkey_text(value), Ok(()));
    }
    for value in ["", "U", "+", "Ctrl", "Ctrl+"] {
        assert_eq!(validate_hotkey_text(value), Err(HotkeyError::NoModifier));
    }
    for value in ["U+Ctrl", "Ctrl+F0", "Ctrl+F25", "Ctrl+F", "Hyper+U", "Ctrl+é", "Ctrl+F+1"] {
        if value == "Ctrl+F" {
            assert_eq!(validate_hotkey_text(value), Ok(()));
        } else {
            assert_eq!(validate_hotkey_text(value), Err(HotkeyError::Malformed));
        }
    }
}

#[test]
fn receivers_that_are_clean_stay_as_they_are() {
    let values = vec!["b".to_owned(), " a".to_owned(), "B ".to_owned(), "c c".to_owned()];
    let once = AppSettings::normalize_receivers(values);
    assert_eq!(once, ["b", "a", "c c"]);
    assert_eq!(AppSettings::normalize_receivers(once.clone()), once);
}

#[test]
fn hotkeys_mean_the_same_however_they_are_written() {
    let same = [
        "Ctrl+Alt+U",
        "ctrl+ALT+u",
        "Alt+Ctrl+U",
        "Ctrl+Ctrl+Alt+U",
        " Ctrl + Alt + U ",
        "+Ctrl++Alt+++U+",
    ];
    for value in same {
        assert_eq!(validate_hotkey_text(value), Ok(()));
    }
    for value in ["Ctrl+Hyper+U", "hyper+CTRL+u", " Hyper ++ Ctrl + U"] {
        assert_eq!(validate_hotkey_text(value), Err(HotkeyError::Malformed));
    }
}
