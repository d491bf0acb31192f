use podbringer::backends::{get, Backends};
use podbringer::Error;

#[test]
fn get_mixcloud() {
    let b = get("mixcloud").unwrap();
    assert!(matches!(b, Backends::Mixcloud));
    assert_eq!(b.name(), "Mixcloud");
}

#[test]
fn get_youtube() {
    let b = get("youtube").unwrap();
    assert!(matches!(b, Backends::YouTube));
    assert_eq!(b.name(), "YouTube");
}

#[test]
fn unknown_backend_is_rejected() {
    let r = get("unknown-provider");
    match r {
        Err(Error::UnsupportedBackend(id)) => assert_eq!(id, "unknown-provider"),
        _ => panic!("expected UnsupportedBackend"),
    }
}

#[test]
fn case_matters_in_backend_ids() {
    assert!(get("Mixcloud").is_err());
    assert!(get("").is_err());
}

#[test]
fn status_codes() {
    assert_eq!(Error::NoRedirectUrlFound.status_code(), 404);
    assert_eq!(Error::UnsupportedBackend(String::from("x")).status_code(), 500);
    assert_eq!(Error::Request(String::from("boom")).status_code(), 500);
    assert_eq!(Error::MalformedResponse(String::from("bad json")).status_code(), 500);
    assert_eq!(Error::InvalidId(String::from("?")).status_code(), 500);
    assert_eq!(Error::Extraction(String::from("tool failed")).status_code(), 500);
}
