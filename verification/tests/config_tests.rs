use globed_core::config::{
    default_challenge_expiry, default_challenge_level, default_su_color, default_token_expiry,
    default_web_address, default_web_mountpoint, ServerConfig,
};
use globed_core::text::{parse_decimal, render_decimal};

#[test]
fn defaults_match_the_documented_values() {
    let c = ServerConfig::make_default();
    assert_eq!(c.web_mountpoint, "/");
    assert_eq!(c.web_address, "0.0.0.0:41000");
    assert_eq!(
        c.gd_api,
        "http://www.boomlings.com/database/getGJComments21.php"
    );
    assert!(c.special_users.is_empty());
    assert!(!c.maintenance);
    assert_eq!(c.tps, 30);
    assert_eq!(c.challenge_expiry, 60);
    assert_eq!(c.challenge_level, 1);
    assert_eq!(c.token_expiry, 1800);
    assert_eq!(default_web_mountpoint(), "/");
    assert_eq!(default_web_address(), "0.0.0.0:41000");
    assert_eq!(default_challenge_expiry(), 60);
    assert_eq!(default_challenge_level(), 1);
    assert_eq!(default_token_expiry(), 1800);
    assert_eq!(default_su_color(), "#ffffff");
}

#[test]
fn generated_secrets_carry_the_warning_prefix() {
    let c = ServerConfig::make_default();
    for secret in [&c.secret_key, &c.game_server_password] {
        assert_eq!(secret.len(), "Change-Me-Please-Insecure-".len() + 32);
        assert!(secret.starts_with("Change-Me-Please-Insecure-"));
        let suffix = &secret["Change-Me-Please-Insecure-".len()..];
        assert!(suffix.chars().all(|ch| ch.is_ascii_alphanumeric()));
    }
}

#[test]
fn reload_twice_from_one_source_changes_nothing() {
    let mut source = ServerConfig::make_default();
    source.maintenance = true;
    source.tps = 60;
    source.token_expiry = 99;

    let mut store = ServerConfig::make_default();
    store.reload_in_place(&source);
    let tps_after_one = store.tps;
    let maintenance_after_one = store.maintenance;
    let expiry_after_one = store.token_expiry;
    let secret_after_one = store.secret_key.clone();

    store.reload_in_place(&source);
    assert_eq!(store.tps, tps_after_one);
    assert_eq!(store.maintenance, maintenance_after_one);
    assert_eq!(store.token_expiry, expiry_after_one);
    assert_eq!(store.secret_key, secret_after_one);
}

#[test]
fn decimal_rendering_is_exact() {
    assert_eq!(render_decimal(0), "0");
    assert_eq!(render_decimal(7), "7");
    assert_eq!(render_decimal(12345), "12345");
    assert_eq!(render_decimal(u64::MAX), "18446744073709551615");
}

#[test]
fn decimal_parsing_is_exact() {
    assert_eq!(parse_decimal("0"), Some(0));
    assert_eq!(parse_decimal("0042"), Some(42));
    assert_eq!(parse_decimal("18446744073709551615"), Some(u64::MAX));
    assert_eq!(parse_decimal("18446744073709551616"), None);
    assert_eq!(parse_decimal(""), None);
    assert_eq!(parse_decimal("12a"), None);
    assert_eq!(parse_decimal("-1"), None);
}
