use lanio::config::{
    default_media_path, default_port, default_tmdb_base_url, default_tmdb_image_base_url, Config,
    EnvSettings,
};
use lanio::paths::MediaPath;

/// Spreads a password over the 256 hexadecimal characters of a token.
fn compute_token(password: &str) -> String {
    let mut state: u64 = 0xcbf2_9ce4_8422_2325;
    for b in password.bytes() {
        state = (state ^ b as u64).wrapping_mul(0x0000_0100_0000_01b3);
    }
    let mut token = String::new();
    while token.len() < 256 {
        state = state.wrapping_mul(6364136223846793005).wrapping_add(1442695040888963407);
        token.push_str(&format!("{:016x}", state));
    }
    token
}

fn settings(password: Option<&str>) -> EnvSettings {
    EnvSettings {
        media_path: None,
        port: None,
        base_url: None,
        public_url: None,
        tmdb_api_key: String::new(),
        tmdb_base_url: None,
        tmdb_image_base_url: None,
        password: password.map(|p| p.to_string()),
    }
}

fn config_with_password(password: &str) -> Config {
    Config::from_env(settings(Some(password)), compute_token)
}

fn config_no_auth() -> Config {
    Config {
        media_path: default_media_path(),
        port: default_port(),
        base_url: None,
        public_url: None,
        tmdb_api_key: String::new(),
        tmdb_base_url: default_tmdb_base_url(),
        tmdb_image_base_url: default_tmdb_image_base_url(),
        password: None,
        auth_token: None,
    }
}

#[test]
fn valid_token_accepted() {
    let config = config_with_password("secret");
    let token = compute_token("secret");
    assert!(config.is_valid_token(&token));
}

#[test]
fn wrong_token_rejected() {
    let config = config_with_password("secret");
    let wrong = compute_token("wrong_password");
    assert!(!config.is_valid_token(&wrong));
}

#[test]
fn no_auth_accepts_any_token() {
    let config = config_no_auth();
    assert!(config.is_valid_token("anything"));
    assert!(config.is_valid_token(""));
}

#[test]
fn empty_string_token_rejected_when_auth_set() {
    let config = config_with_password("secret");
    assert!(!config.is_valid_token(""));
}

#[test]
fn auth_token_derived_from_password() {
    let config = config_with_password("mypass");
    assert_eq!(
        config.auth_token.as_deref(),
        Some(compute_token("mypass").as_str())
    );
}

#[test]
fn defaults_fill_what_the_environment_leaves_out() {
    let config = Config::from_env(settings(None), compute_token);
    assert_eq!(config.media_path.to_string_lossy(), "/media");
    assert_eq!(config.port, 8078);
    assert_eq!(config.tmdb_base_url, "https://api.themoviedb.org/3");
    assert_eq!(config.tmdb_image_base_url, "https://image.tmdb.org/t/p/w500");
    assert_eq!(config.auth_token, None);
    assert_eq!(config.base_url, None);
}

#[test]
fn the_environment_goes_before_the_defaults() {
    let env = EnvSettings {
        media_path: Some(MediaPath::from_text("/videos")),
        port: Some(9000),
        base_url: Some("http://box:9000/".to_string()),
        public_url: Some("https://example.org".to_string()),
        tmdb_api_key: "key".to_string(),
        tmdb_base_url: Some("http://tmdb".to_string()),
        tmdb_image_base_url: Some("http://images".to_string()),
        password: Some("pw".to_string()),
    };
    let config = Config::from_env(env, |p| format!("<{}>", p));
    assert_eq!(config.media_path.to_string_lossy(), "/videos");
    assert_eq!(config.port, 9000);
    assert_eq!(config.base_url.as_deref(), Some("http://box:9000/"));
    assert_eq!(config.public_url.as_deref(), Some("https://example.org"));
    assert_eq!(config.tmdb_api_key, "key");
    assert_eq!(config.tmdb_base_url, "http://tmdb");
    assert_eq!(config.tmdb_image_base_url, "http://images");
    assert_eq!(config.password.as_deref(), Some("pw"));
    assert_eq!(config.auth_token.as_deref(), Some("<pw>"));
}
