use avtensor::s3_client::{
    client_key, plan_s3_client, resolve_s3_credentials, ClientCache, S3ConfigError,
    S3CredentialsSource, S3_MAX_ATTEMPTS,
};
use avtensor::util::gcs::{gcs_uri_from_parts, is_gcs_url, parse_gcs_uri, GCSUri};
use avtensor::util::s3::{is_s3_url, parse_s3_uri, s3_uri_from_parts, S3Config, S3Uri};
use avtensor::util::uri::{UriError, UriParts};

#[test]
fn test_is_gcs_url() {
    assert!(is_gcs_url("gs://bucket/object"));
    assert!(!is_gcs_url("http://example.com"));
    assert!(!is_gcs_url("file.mp4"));
    assert!(!is_gcs_url("./file.mp4"));
}

#[test]
fn test_parse_gcs_uri() {
    let uri = "gs://bucket/object";
    let GCSUri { bucket, key } = parse_gcs_uri(uri).unwrap();
    assert_eq!(bucket, "projects/_/buckets/bucket");
    assert_eq!(key, "object");
    assert_eq!(uri, GCSUri { bucket, key }.to_string());

    let uri = "gs://bucket/nested/object";
    let GCSUri { bucket, key } = parse_gcs_uri(uri).unwrap();
    assert_eq!(bucket, "projects/_/buckets/bucket");
    assert_eq!(key, "nested/object");
    assert_eq!(uri, GCSUri { bucket, key }.to_string());

    assert!(parse_gcs_uri("").is_err());
}

#[test]
fn test_is_s3_url() {
    assert!(is_s3_url("s3://bucket/object"));
    assert!(!is_s3_url("gs://bucket/object"));
    assert!(!is_s3_url("http://example.com"));
    assert!(!is_s3_url("file.mp4"));
}

#[test]
fn test_parse_s3_uri() {
    let uri = "s3://bucket/object";
    let parsed = parse_s3_uri(uri).unwrap();
    assert_eq!(parsed.bucket, "bucket");
    assert_eq!(parsed.key, "object");
    assert_eq!(uri, parsed.to_string());

    let parsed = parse_s3_uri("s3://bucket/nested/object.mp4").unwrap();
    assert_eq!(parsed.bucket, "bucket");
    assert_eq!(parsed.key, "nested/object.mp4");

    assert!(parse_s3_uri("").is_err());
    assert!(parse_s3_uri("s3://bucket-without-key").is_err());
}

#[test]
fn uri_errors_tell_what_is_missing() {
    assert!(matches!(parse_gcs_uri(""), Err(UriError::Invalid(_))));
    assert!(matches!(parse_gcs_uri("gs://"), Err(UriError::Invalid(_))));
    assert!(matches!(parse_gcs_uri("/only/a/path"), Err(UriError::MissingBucket)));
    assert!(matches!(parse_s3_uri("/only/a/path"), Err(UriError::MissingBucket)));
    assert!(matches!(parse_s3_uri("s3://bucket/"), Err(UriError::MissingKey)));
    assert!(matches!(parse_s3_uri("s3://bucket-without-key"), Err(UriError::MissingKey)));
    // A bucket without a key is fine for the other store.
    assert_eq!(parse_gcs_uri("gs://bucket").unwrap().key, "");
}

#[test]
fn hosts_and_paths_become_objects() {
    let parts = UriParts { host: Some("films".to_string()), path: "/a/b.mov".to_string() };
    let gcs = gcs_uri_from_parts(&parts).unwrap();
    assert_eq!(gcs.bucket, "projects/_/buckets/films");
    assert_eq!(gcs.key, "a/b.mov");
    assert_eq!(s3_uri_from_parts(&parts).unwrap().key, "a/b.mov");
    // A path that does not begin with a slash has no key in it.
    let odd = UriParts { host: Some("films".to_string()), path: "*".to_string() };
    assert_eq!(gcs_uri_from_parts(&odd).unwrap().key, "");
    assert!(matches!(s3_uri_from_parts(&odd), Err(UriError::MissingKey)));
}

#[test]
fn plain_urls_come_back_as_they_were() {
    for url in ["gs://a-b.c_d/x/y-z.mp4", "gs://A1/k", "gs://b//double", "gs://b/"] {
        assert_eq!(parse_gcs_uri(url).unwrap().to_string(), url);
    }
    for url in ["s3://a-b.c_d/x/y-z.mp4", "s3://A1/k", "s3://b//double"] {
        assert_eq!(parse_s3_uri(url).unwrap().to_string(), url);
    }
    let long = format!("s3://b/{}", "k".repeat(65534 - "s3://b/".len()));
    assert_eq!(parse_s3_uri(&long).unwrap().to_string(), long);
    let too_long = format!("{long}k");
    assert!(matches!(parse_s3_uri(&too_long), Err(UriError::Invalid(_))));
    let long = format!("gs://b/{}", "k".repeat(65534 - "gs://b/".len()));
    assert_eq!(parse_gcs_uri(&long).unwrap().to_string(), long);
    assert!(matches!(parse_gcs_uri(&format!("{long}k")), Err(UriError::Invalid(_))));
}

#[test]
fn user_names_ports_and_queries_are_left_out() {
    let parsed = parse_s3_uri("s3://user@bucket:80/key?version=2").unwrap();
    assert_eq!(parsed, S3Uri { bucket: "bucket".to_string(), key: "key".to_string() });
}

#[test]
fn resource_prefix_is_taken_off_repeatedly() {
    let uri = GCSUri {
        bucket: "projects/_/buckets/projects/_/buckets/b".to_string(),
        key: "k".to_string(),
    };
    assert_eq!(uri.to_string(), "gs://b/k");
}

#[test]
fn test_resolve_s3_credentials_static() {
    let source = resolve_s3_credentials(&S3Config {
        access_key_id: Some("id".into()),
        secret_access_key: Some("secret".into()),
        session_token: Some("token".into()),
        ..Default::default()
    })
    .ok()
    .unwrap();
    assert!(matches!(source, S3CredentialsSource::Static(_)));
}

#[test]
fn static_credentials_carry_what_was_configured() {
    let config = S3Config {
        access_key_id: Some("id".into()),
        secret_access_key: Some("secret".into()),
        session_token: Some("token".into()),
        ..Default::default()
    };
    match resolve_s3_credentials(&config) {
        Ok(S3CredentialsSource::Static(credentials)) => {
            assert_eq!(credentials.access_key_id(), "id");
            assert_eq!(credentials.secret_access_key(), "secret");
            assert_eq!(credentials.session_token(), Some("token"));
            assert!(credentials.expiry().is_none());
            assert!(format!("{credentials:?}").contains("avtensor-s3-config"));
        }
        _ => panic!("expected static credentials"),
    }
}

#[test]
fn test_resolve_s3_credentials_modes() {
    let mode = |credentials: &str| {
        resolve_s3_credentials(&S3Config {
            credentials: Some(credentials.into()),
            ..Default::default()
        })
    };
    assert!(matches!(
        mode("container").ok().unwrap(),
        S3CredentialsSource::Container
    ));
    assert!(matches!(
        mode("default").ok().unwrap(),
        S3CredentialsSource::Default
    ));
    assert!(mode("bogus").is_err());
}

#[test]
fn test_resolve_s3_credentials_invalid_combinations() {
    // Incomplete static pair.
    assert!(resolve_s3_credentials(&S3Config {
        access_key_id: Some("id".into()),
        ..Default::default()
    })
    .is_err());
    // Session token without the static pair.
    assert!(resolve_s3_credentials(&S3Config {
        session_token: Some("token".into()),
        credentials: Some("default".into()),
        ..Default::default()
    })
    .is_err());
    // Static credentials combined with a credentials mode.
    assert!(resolve_s3_credentials(&S3Config {
        access_key_id: Some("id".into()),
        secret_access_key: Some("secret".into()),
        credentials: Some("container".into()),
        ..Default::default()
    })
    .is_err());
}

#[test]
fn each_fault_of_a_configuration_is_named() {
    let fault = |config: S3Config| resolve_s3_credentials(&config).err().unwrap();
    assert!(matches!(
        fault(S3Config { secret_access_key: Some("s".into()), ..Default::default() }),
        S3ConfigError::KeyWithoutSecret
    ));
    assert!(matches!(
        fault(S3Config { session_token: Some("t".into()), ..Default::default() }),
        S3ConfigError::TokenWithoutKeys
    ));
    assert!(matches!(
        fault(S3Config {
            access_key_id: Some("i".into()),
            secret_access_key: Some("s".into()),
            credentials: Some("default".into()),
            ..Default::default()
        }),
        S3ConfigError::KeysWithMode
    ));
    match fault(S3Config { credentials: Some("Container".into()), ..Default::default() }) {
        S3ConfigError::UnknownMode(mode) => assert_eq!(mode, "Container"),
        other => panic!("unexpected fault {other:?}"),
    }
}

#[test]
fn labels_give_no_credentials_away() {
    let label = |config: S3Config| resolve_s3_credentials(&config).ok().unwrap().label();
    assert_eq!(label(S3Config::default()), "default");
    assert_eq!(
        label(S3Config { credentials: Some("container".into()), ..Default::default() }),
        "container"
    );
    assert_eq!(
        label(S3Config {
            access_key_id: Some("i".into()),
            secret_access_key: Some("s".into()),
            ..Default::default()
        }),
        "static"
    );
}

#[test]
fn path_style_comes_from_the_configuration_first() {
    let plan = |force: Option<bool>, variable: Option<&str>| {
        plan_s3_client(
            &S3Config { force_path_style: force, ..Default::default() },
            variable,
        )
        .ok()
        .unwrap()
        .force_path_style
    };
    assert!(!plan(None, None));
    assert!(plan(None, Some("1")));
    assert!(!plan(None, Some("true")));
    assert!(!plan(Some(false), Some("1")));
    assert!(plan(Some(true), None));
}

#[test]
fn plans_carry_endpoint_and_region() {
    let config = S3Config {
        endpoint_url: Some("http://localhost:9000".into()),
        region: Some("eu-west-1".into()),
        ..Default::default()
    };
    let plan = plan_s3_client(&config, None).ok().unwrap();
    assert_eq!(plan.endpoint_url.as_deref(), Some("http://localhost:9000"));
    assert_eq!(plan.region.as_deref(), Some("eu-west-1"));
    assert_eq!(plan.max_attempts, S3_MAX_ATTEMPTS);
    assert_eq!(plan.max_attempts, 5);
    let wrong = S3Config { session_token: Some("t".into()), ..Default::default() };
    assert!(plan_s3_client(&wrong, None).is_err());
}

#[test]
fn the_first_client_of_a_configuration_stays() {
    let mut cache: ClientCache<u32> = ClientCache::new();
    let here = S3Config { region: Some("here".into()), ..Default::default() };
    let there = S3Config { region: Some("there".into()), ..Default::default() };
    assert_eq!(cache.get(&here), None);
    assert_eq!(*cache.or_insert(here.clone(), 1), 1);
    assert_eq!(*cache.or_insert(here.clone(), 2), 1);
    assert_eq!(*cache.or_insert(there.clone(), 3), 3);
    assert_eq!(*cache.or_insert(client_key(None), 4), 4);
    assert_eq!(cache.get(&here), Some(&1));
    assert_eq!(cache.get(&client_key(Some(&there))), Some(&3));
    assert_eq!(cache.get(&S3Config::default()), Some(&4));
}
