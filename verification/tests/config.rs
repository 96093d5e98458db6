use immichctl::config::{join_path, Config};
use immichctl::immichctl::ImmichCtl;

#[test]
fn config_test_logged_in() {
    let config = Config {
        config_file: String::new(),
        server: "http://localhost".to_string(),
        apikey: "testkey".to_string(),
    };
    assert!(config.logged_in());
    let config = Config {
        config_file: String::new(),
        server: String::new(),
        apikey: String::new(),
    };
    assert!(!config.logged_in());
}

#[test]
fn config_test_logout() {
    let mut config = Config {
        config_file: String::new(),
        server: "http://localhost".to_string(),
        apikey: "testkey".to_string(),
    };
    config.logout();
    assert!(config.server.is_empty());
    assert!(config.apikey.is_empty());
}

#[test]
fn logged_in_needs_server_and_key() {
    let config = Config {
        config_file: String::new(),
        server: "http://localhost".to_string(),
        apikey: String::new(),
    };
    assert!(!config.logged_in());
    let config = Config {
        config_file: String::new(),
        server: String::new(),
        apikey: "testkey".to_string(),
    };
    assert!(!config.logged_in());
}

#[test]
fn load_takes_what_the_file_held() {
    let config = Config::load("/tmp/x/config.json", None);
    assert_eq!(config.config_file, "/tmp/x/config.json");
    assert!(config.server.is_empty());
    assert!(config.apikey.is_empty());
    assert!(!config.logged_in());

    let config = Config::load(
        "/tmp/x/config.json",
        Some(("http://localhost".to_string(), "testkey".to_string())),
    );
    assert_eq!(config.config_file, "/tmp/x/config.json");
    assert_eq!(config.server, "http://localhost");
    assert_eq!(config.apikey, "testkey");
    assert!(config.logged_in());
}

#[test]
fn test_get_default_config_dir() {
    let path = ImmichCtl::get_default_config_dir(Some("/home/someone")).expect("no home path");
    assert!(std::path::Path::new(&path).ends_with(".immichctl"));
    assert!(std::path::Path::new(&path).starts_with("/home/someone"));
    let missing = ImmichCtl::get_default_config_dir(None);
    assert_eq!(
        missing.err().unwrap().to_string(),
        "Could not determine home directory"
    );
}

#[test]
fn test_with_config_dir() {
    let ctl = ImmichCtl::with_config_dir("/tmp/immichctl_test_config_dir", None);
    assert!(ctl.config().server.is_empty());
    assert!(ctl.assert_logged_in().is_err());
    assert!(ctl.immich().is_err());
    assert_eq!(
        ctl.immich().err().unwrap().to_string(),
        "Not logged in. Use 'immichctl login <URL> --apikey <KEY>' to login."
    );
}

#[test]
fn with_config_dir_places_the_files() {
    let dir = std::path::Path::new("/tmp/immichctl_test_config_dir");
    let ctl = ImmichCtl::with_config_dir(
        dir.to_str().unwrap(),
        Some(("http://localhost:2283".to_string(), "key".to_string())),
    );
    assert_eq!(
        std::path::Path::new(&ctl.config().config_file),
        dir.join("config.json")
    );
    assert_eq!(
        std::path::Path::new(ctl.assets_file()),
        dir.join("assets.json")
    );
    assert_eq!(
        ImmichCtl::config_file_in(dir.to_str().unwrap()),
        ctl.config().config_file
    );
    assert!(ctl.assert_logged_in().is_ok());
    let client = ctl.immich().unwrap();
    assert_eq!(client.base_url, "http://localhost:2283/api");
    assert_eq!(client.api_key, "key");
}

#[test]
fn new_works_under_the_home_directory() {
    let ctl = ImmichCtl::new("/home/someone", None);
    let expected = std::path::Path::new("/home/someone").join(".immichctl");
    assert_eq!(
        std::path::Path::new(&ctl.config().config_file),
        expected.join("config.json")
    );
    assert_eq!(
        std::path::Path::new(ctl.assets_file()),
        expected.join("assets.json")
    );
    assert!(ctl.immich().is_err());
}

#[test]
fn login_and_logout() {
    let mut ctl = ImmichCtl::with_config_dir("/tmp/immichctl_test_config_dir", None);
    assert!(ctl.login("", "key").is_err());
    assert!(ctl.login("http://localhost", "").is_err());
    assert!(!ctl.config().logged_in());
    assert!(ctl.immich().is_err());

    assert!(ctl.login("http://localhost", "key").is_ok());
    assert!(ctl.config().logged_in());
    assert!(ctl.assert_logged_in().is_ok());
    assert_eq!(ctl.immich().unwrap().base_url, "http://localhost/api");
    assert_eq!(ctl.immich().unwrap().api_key, "key");

    ctl.logout();
    assert!(!ctl.config().logged_in());
    assert!(ctl.assert_logged_in().is_err());
}

#[test]
fn test_get_default_config_file() {
    let path = Config::get_default_config_file(Some("/home/someone"));
    assert!(path.is_some());
    let path = path.unwrap();
    assert!(std::path::Path::new(&path).ends_with(".immichctl/config.json"));
    assert!(Config::get_default_config_file(None).is_none());
}

#[test]
fn join_path_puts_one_separator_between() {
    assert_eq!(join_path("/home/someone", ".immichctl"), "/home/someone/.immichctl");
    assert_eq!(join_path("/home/someone/", ".immichctl"), "/home/someone/.immichctl");
    assert_eq!(join_path("relative", "config.json"), "relative/config.json");
    assert_eq!(join_path("", "config.json"), "config.json");
    assert_eq!(join_path("/", "config.json"), "/config.json");
    assert_eq!(join_path("/home/someone", "/etc/other"), "/etc/other");
    assert_eq!(join_path("/home/someone", ""), "/home/someone/");
    assert_eq!(join_path("/h\u{00f6}me", "d\u{00e4}tei"), "/h\u{00f6}me/d\u{00e4}tei");
    for (dir, name) in [
        ("/home/someone", ".immichctl"),
        ("/home/someone/", "a"),
        ("", "a"),
        ("/", "a"),
        ("x", "/abs"),
        ("x", ""),
    ] {
        assert_eq!(
            std::path::Path::new(&join_path(dir, name)),
            std::path::Path::new(dir).join(name)
        );
    }
}

#[test]
fn test_login_logout() {
    let mut ctl = ImmichCtl::with_config_dir("/tmp/immichctl_test_login_logout", None);

    ctl.login("http://127.0.0.1:1234", "apikey").unwrap();
    ctl.immich().unwrap();

    assert!(ctl.config().logged_in());

    ctl.logout();
    assert!(!ctl.config().logged_in());
}
