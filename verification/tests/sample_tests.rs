use osc::error::MmiError;
use osc::sample::{Sample, SAMPLE_INFO};

const COMPONENT_NAME: &str = "SampleComponent";

const DESIRED_STRING_OBJECT_NAME: &str = "desiredStringObject";
const REPORTED_STRING_OBJECT_NAME: &str = "reportedStringObject";
const DESIRED_INTEGER_OBJECT_NAME: &str = "desiredIntegerObject";
const REPORTED_INTEGER_OBJECT_NAME: &str = "reportedIntegerObject";
const DESIRED_BOOLEAN_OBJECT_NAME: &str = "desiredBooleanObject";
const REPORTED_BOOLEAN_OBJECT_NAME: &str = "reportedBooleanObject";
const DESIRED_OBJECT_NAME: &str = "desiredObject";
const REPORTED_OBJECT_NAME: &str = "reportedObject";
const DESIRED_ARRAY_OBJECT_NAME: &str = "desiredArrayObject";
const REPORTED_ARRAY_OBJECT_NAME: &str = "reportedArrayObject";

const MAX_PAYLOAD_BYTES: u32 = 0;

type Result<T> = std::result::Result<T, MmiError>;

fn json_strings_eq(json_str_one: &str, json_str_two: &str) -> bool {
    let json_one: serde_json::Value = serde_json::from_str(json_str_one).unwrap();
    let json_two: serde_json::Value = serde_json::from_str(json_str_two).unwrap();
    json_one == json_two
}

#[test]
fn build_sample() {
    let sample = Sample::new(MAX_PAYLOAD_BYTES);
    assert_eq!(sample.get_max_payload_size_bytes(), MAX_PAYLOAD_BYTES);
}

#[test]
fn sample_info_size() {
    let sample_info: Result<&str> = Sample::get_info("Test_client_name");
    assert!(sample_info.is_ok());
    let sample_info: &str = sample_info.unwrap();
    assert_eq!(SAMPLE_INFO, sample_info);
    assert_eq!(SAMPLE_INFO.len() as i32, sample_info.len() as i32);
}

#[test]
fn sample_invalid_get() {
    let sample = Sample::new(MAX_PAYLOAD_BYTES);
    let invalid_component_result: Result<String> =
        sample.get("Invalid component", DESIRED_STRING_OBJECT_NAME);
    assert!(invalid_component_result.is_err());
    if let Err(e) = invalid_component_result {
        assert_eq!(e, MmiError::InvalidArgument);
    }
    let invalid_object_result: Result<String> = sample.get(COMPONENT_NAME, "Invalid object");
    assert!(invalid_object_result.is_err());
    if let Err(e) = invalid_object_result {
        assert_eq!(e, MmiError::InvalidArgument);
    }
}

#[test]
fn sample_invalid_set() {
    let mut sample = Sample::new(MAX_PAYLOAD_BYTES);
    let valid_json_payload = r#""Rust Sample Module""#;
    let invalid_json_payload = r#"Invalid payload"#;
    let invalid_component_result: Result<i32> = sample.set(
        "Invalid component",
        DESIRED_STRING_OBJECT_NAME,
        valid_json_payload,
    );
    assert!(invalid_component_result.is_err());
    if let Err(e) = invalid_component_result {
        assert_eq!(e, MmiError::InvalidArgument);
    }
    let invalid_object_result: Result<i32> =
        sample.set(COMPONENT_NAME, "Invalid object", valid_json_payload);
    assert!(invalid_object_result.is_err());
    if let Err(e) = invalid_object_result {
        assert_eq!(e, MmiError::InvalidArgument);
    }
    let invalid_payload_result: Result<i32> = sample.set(
        COMPONENT_NAME,
        DESIRED_STRING_OBJECT_NAME,
        invalid_json_payload,
    );
    assert!(invalid_payload_result.is_err());
    if let Err(e) = invalid_payload_result {
        assert_eq!(e, MmiError::SerdeError);
    }
}

#[test]
fn get_set_string_object() {
    let mut sample = Sample::new(MAX_PAYLOAD_BYTES);
    let json_payload = r#""Rust Sample Module""#;
    let set_result: Result<i32> =
        sample.set(COMPONENT_NAME, DESIRED_STRING_OBJECT_NAME, json_payload);
    assert!(set_result.is_ok());
    assert_eq!(0, set_result.unwrap());
    let get_result: Result<String> = sample.get(COMPONENT_NAME, REPORTED_STRING_OBJECT_NAME);
    assert!(get_result.is_ok());
    let get_result: String = get_result.unwrap();
    assert!(json_strings_eq(get_result.as_str(), json_payload));
}

#[test]
fn get_set_integer_object() {
    let mut sample = Sample::new(MAX_PAYLOAD_BYTES);
    let json_payload = r#"12345"#;
    let set_result: Result<i32> =
        sample.set(COMPONENT_NAME, DESIRED_INTEGER_OBJECT_NAME, json_payload);
    assert!(set_result.is_ok());
    assert_eq!(0, set_result.unwrap());
    let get_result: Result<String> = sample.get(COMPONENT_NAME, REPORTED_INTEGER_OBJECT_NAME);
    assert!(get_result.is_ok());
    let get_result: String = get_result.unwrap();
    assert!(json_strings_eq(get_result.as_str(), json_payload));
}

#[test]
fn get_set_boolean_object() {
    let mut sample = Sample::new(MAX_PAYLOAD_BYTES);
    let json_payload = r#"true"#;
    let set_result: Result<i32> =
        sample.set(COMPONENT_NAME, DESIRED_BOOLEAN_OBJECT_NAME, json_payload);
    assert!(set_result.is_ok());
    assert_eq!(0, set_result.unwrap());
    let get_result: Result<String> = sample.get(COMPONENT_NAME, REPORTED_BOOLEAN_OBJECT_NAME);
    assert!(get_result.is_ok());
    let get_result: String = get_result.unwrap();
    assert!(json_strings_eq(get_result.as_str(), json_payload));
}

#[test]
fn get_set_object() {
    let mut sample = Sample::new(MAX_PAYLOAD_BYTES);
    let json_payload = "{\
            \"stringSetting\":\"C++ Sample Module\",\
            \"booleanSetting\":true,\
            \"integerSetting\":12345,\
            \"integerEnumerationSetting\":0,\
            \"stringEnumerationSetting\":\"value1\",\
            \"stringArraySetting\":[\"C++ Sample Module 1\",\"C++ Sample Module 2\"],\
            \"integerArraySetting\":[1,2,3,4,5],\
            \"stringMapSetting\":{\
                \"key1\":\"C++ Sample Module 1\",\
                \"key2\":\"C++ Sample Module 2\"\
            },\
            \"integerMapSetting\":{\
                \"key1\":1,\
                \"key2\":2\
            }\
        }";
    let set_result: Result<i32> = sample.set(COMPONENT_NAME, DESIRED_OBJECT_NAME, json_payload);
    assert!(set_result.is_ok());

    assert_eq!(0, set_result.unwrap());
    let get_result: Result<String> = sample.get(COMPONENT_NAME, REPORTED_OBJECT_NAME);
    assert!(get_result.is_ok());
    let get_result: String = get_result.unwrap();
    assert!(json_strings_eq(get_result.as_str(), json_payload));
}

#[test]
fn get_set_object_map_null_values() {
    let mut sample = Sample::new(MAX_PAYLOAD_BYTES);
    let json_payload = "{\
            \"stringSetting\":\"C++ Sample Module\",\
            \"booleanSetting\":true,\
            \"integerSetting\":12345,\
            \"integerEnumerationSetting\":0,\
            \"stringEnumerationSetting\":\"value1\",\
            \"stringArraySetting\":[\"C++ Sample Module 1\",\"C++ Sample Module 2\"],\
            \"integerArraySetting\":[1,2,3,4,5],\
            \"stringMapSetting\":{\
                \"key1\":\"C++ Sample Module 1\",\
                \"key2\":null\
            },\
            \"integerMapSetting\":{\
                \"key1\":1,\
                \"key2\":null\
            }\
        }";
    let set_result: Result<i32> = sample.set(COMPONENT_NAME, DESIRED_OBJECT_NAME, json_payload);
    assert!(set_result.is_ok());
    assert_eq!(0, set_result.unwrap());
    let get_result: Result<String> = sample.get(COMPONENT_NAME, REPORTED_OBJECT_NAME);
    assert!(get_result.is_ok());
    let get_result: String = get_result.unwrap();
    assert!(json_strings_eq(get_result.as_str(), json_payload));
}

#[test]
fn get_set_array_object() {
    let mut sample = Sample::new(MAX_PAYLOAD_BYTES);
    let json_payload = "[\
            {\
                \"stringSetting\":\"C++ Sample Module\",\
                \"booleanSetting\":true,\
                \"integerSetting\":12345,\
                \"integerEnumerationSetting\":0,\
                \"stringEnumerationSetting\":\"value1\",\
                \"stringArraySetting\":[\"C++ Sample Module 1\",\"C++ Sample Module 2\"],\
                \"integerArraySetting\":[1,2,3,4,5],\
                \"stringMapSetting\":{\
                    \"key1\":\"C++ Sample Module 1\",\
                    \"key2\":null\
                },\
                \"integerMapSetting\":{\
                    \"key1\":1,\
                    \"key2\":null\
                }\
            }\
        ]";
    let set_result: Result<i32> =
        sample.set(COMPONENT_NAME, DESIRED_ARRAY_OBJECT_NAME, json_payload);
    assert!(set_result.is_ok());
    assert_eq!(0, set_result.unwrap());
    let get_result: Result<String> = sample.get(COMPONENT_NAME, REPORTED_ARRAY_OBJECT_NAME);
    assert!(get_result.is_ok());
    let get_result: String = get_result.unwrap();
    assert!(json_strings_eq(get_result.as_str(), json_payload));
}

#[test]
fn sample_rejects_out_of_range_integer() {
    let mut sample = Sample::new(MAX_PAYLOAD_BYTES);
    let r = sample.set(COMPONENT_NAME, DESIRED_INTEGER_OBJECT_NAME, "2147483648");
    assert_eq!(r.unwrap_err(), MmiError::SerdeError);
    let r = sample.set(COMPONENT_NAME, DESIRED_INTEGER_OBJECT_NAME, "1.5");
    assert_eq!(r.unwrap_err(), MmiError::SerdeError);
}

#[test]
fn sample_rejects_payload_of_the_wrong_shape() {
    let mut sample = Sample::new(MAX_PAYLOAD_BYTES);
    assert_eq!(
        sample.set(COMPONENT_NAME, DESIRED_STRING_OBJECT_NAME, "123").unwrap_err(),
        MmiError::SerdeError
    );
    assert_eq!(
        sample.set(COMPONENT_NAME, DESIRED_OBJECT_NAME, "\"text\"").unwrap_err(),
        MmiError::SerdeError
    );
    assert_eq!(
        sample.set(COMPONENT_NAME, DESIRED_ARRAY_OBJECT_NAME, "[1,2]").unwrap_err(),
        MmiError::SerdeError
    );
}

fn object_payload(enum_word: &str, enum_code: &str) -> String {
    format!(
        "{{\"stringSetting\":\"s\",\"booleanSetting\":true,\"integerSetting\":1,\
         \"integerEnumerationSetting\":{},\"stringEnumerationSetting\":\"{}\",\
         \"stringArraySetting\":[\"a\"],\"integerArraySetting\":[1],\
         \"stringMapSetting\":{{\"k\":null}},\"integerMapSetting\":{{\"k\":null}}}}",
        enum_code, enum_word
    )
}

#[test]
fn sample_object_schema_is_enforced() {
    let mut sample = Sample::new(MAX_PAYLOAD_BYTES);
    // a conforming object, null map values included, is accepted
    let good = object_payload("value2", "2");
    assert!(sample.set(COMPONENT_NAME, DESIRED_OBJECT_NAME, &good).is_ok());
    // an unknown enumeration word is rejected
    let bad_word = object_payload("value9", "2");
    assert_eq!(
        sample.set(COMPONENT_NAME, DESIRED_OBJECT_NAME, &bad_word).unwrap_err(),
        MmiError::SerdeError
    );
    // an out-of-range enumeration code is rejected
    let bad_code = object_payload("value1", "7");
    assert_eq!(
        sample.set(COMPONENT_NAME, DESIRED_OBJECT_NAME, &bad_code).unwrap_err(),
        MmiError::SerdeError
    );
    // a missing setting is rejected
    assert_eq!(
        sample
            .set(COMPONENT_NAME, DESIRED_OBJECT_NAME, "{\"stringSetting\":\"s\"}")
            .unwrap_err(),
        MmiError::SerdeError
    );
    // a mistyped setting is rejected
    let bad_type = good.replace("\"integerSetting\":1", "\"integerSetting\":1.5");
    assert_eq!(
        sample.set(COMPONENT_NAME, DESIRED_OBJECT_NAME, &bad_type).unwrap_err(),
        MmiError::SerdeError
    );
    // an unknown extra field is ignored, as the wire decoding ignores it
    let extra = good.replace("\"stringSetting\"", "\"extraSetting\":0,\"stringSetting\"");
    assert!(sample.set(COMPONENT_NAME, DESIRED_OBJECT_NAME, &extra).is_ok());
    // array elements must conform too
    let arr = format!("[{},{}]", good, object_payload("value9", "0"));
    assert_eq!(
        sample.set(COMPONENT_NAME, DESIRED_ARRAY_OBJECT_NAME, &arr).unwrap_err(),
        MmiError::SerdeError
    );
    let arr = format!("[{}]", good);
    assert!(sample.set(COMPONENT_NAME, DESIRED_ARRAY_OBJECT_NAME, &arr).is_ok());
}

#[test]
fn sample_rejects_oversized_set_payload() {
    let mut sample = Sample::new(4);
    let r = sample.set(COMPONENT_NAME, DESIRED_STRING_OBJECT_NAME, "\"abcdef\"");
    assert_eq!(r.unwrap_err(), MmiError::PayloadSizeExceeded);
}

#[test]
fn sample_truncates_oversized_get_payload() {
    // the default object payload is far over a four-byte limit and is cut
    // at exactly four bytes
    let limited = Sample::new(4);
    let got = limited.get(COMPONENT_NAME, REPORTED_OBJECT_NAME).unwrap();
    assert_eq!(got.len(), 4);
    assert_eq!(got, "{\"st");
}
