use osc::emit::json_quote;
use osc::error::MmiError;
use osc::json::json_normalize;
use osc::module_meta::{IntoPropertyError, Lifetime, PropertyError, UserAccount};
use osc::payload::deliver_payload;
use osc::runtime::{ValueStore, EINVAL, ENOMEM};

#[test]
fn error_codes_follow_the_protocol() {
    assert_eq!(MmiError::FailedAllocate.code(), ENOMEM);
    assert_eq!(MmiError::PayloadSizeExceeded.code(), ENOMEM);
    assert_eq!(MmiError::FailedRead.code(), EINVAL);
    assert_eq!(MmiError::InvalidArgument.code(), EINVAL);
    assert_eq!(MmiError::SerdeError.code(), EINVAL);
    assert_eq!(MmiError::SystemctlError.code(), EINVAL);
    assert_eq!(MmiError::SystemdError.code(), EINVAL);
}

#[test]
fn error_messages_are_readable() {
    assert_eq!(
        MmiError::InvalidArgument.message(),
        "There was an invalid argument"
    );
    let prop = MmiError::SerdeError.into_prop_error();
    assert_eq!(
        prop.message(),
        "There was an error serializing or deserializing"
    );
}

#[test]
fn property_error_carries_its_message() {
    let e = PropertyError::new("something failed".to_string());
    assert_eq!(e.message(), "something failed");
}

#[test]
fn lifetime_and_account_codes() {
    assert_eq!(Lifetime::Short.code(), 1);
    assert_eq!(Lifetime::Long.code(), 2);
    assert_eq!(Lifetime::default(), Lifetime::Long);
    assert_eq!(UserAccount::from_id(0), UserAccount::Root);
    assert_eq!(UserAccount::from_id(1000), UserAccount::User(1000));
    assert_eq!(UserAccount::User(1000).id(), 1000);
    assert_eq!(UserAccount::Root.id(), 0);
}

#[test]
fn delivery_truncates_on_character_boundaries() {
    // under the limit: unchanged
    assert_eq!(deliver_payload("abc".to_string(), 0).unwrap(), "abc");
    assert_eq!(deliver_payload("abc".to_string(), 3).unwrap(), "abc");
    // over the limit: cut at the byte count
    assert_eq!(deliver_payload("abcdef".to_string(), 4).unwrap(), "abcd");
    // a cut through one character's two-byte encoding fails the read
    assert_eq!(
        deliver_payload("\"\u{e9}\"".to_string(), 2).unwrap_err(),
        MmiError::FailedRead
    );
    // the same character cut after its encoding is fine
    assert_eq!(
        deliver_payload("\"\u{e9}\"x".to_string(), 3).unwrap(),
        "\"\u{e9}"
    );
}

#[test]
fn json_quoting_escapes_the_specials() {
    assert_eq!(json_quote("plain"), "\"plain\"");
    assert_eq!(json_quote("a\"b\\c"), "\"a\\\"b\\\\c\"");
    assert_eq!(json_quote("line\nbreak\ttab"), "\"line\\nbreak\\ttab\"");
    assert_eq!(json_quote("\u{1}"), "\"\\u0001\"");
    assert_eq!(json_quote("caf\u{e9}"), "\"caf\u{e9}\"");
}

#[test]
fn normalization_reflects_the_parser() {
    assert_eq!(json_normalize(" { \"b\" : 1, \"a\" : null } ").unwrap(), "{\"a\":null,\"b\":1}");
    assert_eq!(json_normalize("[1, 2,3]").unwrap(), "[1,2,3]");
    assert!(json_normalize("{broken").is_none());
}

#[test]
fn store_reads_follow_bindings() {
    let mut store = ValueStore::new();
    store.bind("read_it".to_string(), "slot".to_string());
    store.bind("write_it".to_string(), "slot".to_string());
    assert!(store.get_value("read_it").is_err());
    assert!(store.set_value("write_it", "42").is_ok());
    assert_eq!(store.get_value("read_it").unwrap(), "42");
    assert!(store.get_value("unbound").is_err());
    assert!(store.set_value("unbound", "42").is_err());
    assert!(store.set_value("write_it", "no json").is_err());
    // the failed write left the stored value alone
    assert_eq!(store.get_value("read_it").unwrap(), "42");
}
