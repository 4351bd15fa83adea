use ometa::config::{resolve, ConfigError, OnDisk, Overrides};

fn s(x: &str) -> Option<String> {
    Some(x.to_string())
}

#[test]
fn cli_overrides_win() {
    let r = resolve(
        Overrides { host: Some("https://h/api/".into()), token: Some("tok".into()) },
        None,
        None,
        OnDisk::default(),
    )
    .unwrap();
    assert_eq!(r.host, "https://h/api");
    assert_eq!(r.token, "tok");
}

#[test]
fn env_used_when_no_overrides() {
    let r = resolve(
        Overrides::default(),
        s("https://envhost/api"),
        s("envtok"),
        OnDisk::default(),
    )
    .unwrap();
    assert_eq!(r.host, "https://envhost/api");
    assert_eq!(r.token, "envtok");
}

#[test]
fn missing_host_is_a_clear_error() {
    let err = resolve(Overrides::default(), None, None, OnDisk::default()).unwrap_err();
    let msg = err.message();
    assert!(msg.contains("OPENMETADATA_HOST"));
}

#[test]
fn overrides_beat_env_and_env_beats_disk() {
    let disk = OnDisk { host: s("https://disk/api"), token: s("disktok") };
    let r = resolve(
        Overrides { host: s("https://cli/api"), token: None },
        s("https://env/api"),
        None,
        disk.clone(),
    )
    .unwrap();
    assert_eq!(r.host, "https://cli/api");
    assert_eq!(r.token, "disktok");
    let r = resolve(Overrides::default(), s("https://env/api"), s("envtok"), disk.clone()).unwrap();
    assert_eq!(r.host, "https://env/api");
    assert_eq!(r.token, "envtok");
    let r = resolve(Overrides::default(), None, None, disk).unwrap();
    assert_eq!(r.host, "https://disk/api");
}

#[test]
fn empty_values_count_as_missing() {
    let err = resolve(
        Overrides { host: s("///"), token: s("t") },
        s("https://env/api"),
        None,
        OnDisk::default(),
    )
    .unwrap_err();
    assert_eq!(err, ConfigError::MissingHost);
    let err = resolve(Overrides { host: s("h"), token: s("") }, None, s("t"), OnDisk::default())
        .unwrap_err();
    assert_eq!(err, ConfigError::MissingToken);
    assert_eq!(
        err.message(),
        "OPENMETADATA_JWT_TOKEN is not set. Pass --token, set the env var, or run `ometa configure`."
    );
}

#[test]
fn missing_token_after_host() {
    let err = resolve(Overrides::default(), s("h"), None, OnDisk::default()).unwrap_err();
    assert_eq!(err, ConfigError::MissingToken);
    let err = resolve(Overrides::default(), None, None, OnDisk::default()).unwrap_err();
    assert_eq!(err, ConfigError::MissingHost);
    assert_eq!(
        err.message(),
        "OPENMETADATA_HOST is not set. Pass --host, set the env var, or run `ometa configure`."
    );
}
