use http_box::cookie::Cookie;
use http_box::field::{FieldMap, FieldValue, NameMap, StringMap};
use http_box::util::{next_segment, FieldError, FieldSegment};

// -------------------------------------------------------------------------------------------------
// Cookie
// -------------------------------------------------------------------------------------------------

#[test]
fn cookie_new_and_setters() {
    let mut cookie = Cookie::new("SessionId", ":N4('<TYqK%un_yd");

    cookie.set_domain("rust-lang.org");
    cookie.set_expires("1998-10-19 20:38");
    cookie.set_http_only(true);
    cookie.set_max_age("1998-10-19 19:38");
    cookie.set_path("/");
    cookie.set_secure(true);

    assert_eq!("SessionId", cookie.name());
    assert_eq!(":N4('<TYqK%un_yd", cookie.value());
    assert_eq!("1998-10-19 20:38", cookie.expires().unwrap());
    assert_eq!("rust-lang.org", cookie.domain().unwrap());
    assert!(cookie.is_http_only());
    assert_eq!("1998-10-19 19:38", cookie.max_age().unwrap());
    assert_eq!("/", cookie.path().unwrap());
    assert!(cookie.is_secure());
}

#[test]
fn cookie_new_has_no_details() {
    let cookie = Cookie::new("name", "value");

    assert_eq!(None, cookie.domain());
    assert_eq!(None, cookie.expires());
    assert_eq!(None, cookie.max_age());
    assert_eq!(None, cookie.path());
    assert!(!cookie.is_http_only());
    assert!(!cookie.is_secure());
}

#[test]
fn cookie_setters_chain() {
    let mut cookie = Cookie::new("a", "b");

    cookie.set_name("c").set_value("d").set_path("/p");

    assert_eq!("c", cookie.name());
    assert_eq!("d", cookie.value());
    assert_eq!("/p", cookie.path().unwrap());
}

#[test]
fn cookie_from_bytes() {
    let cookie = Cookie::from_bytes(b"Cookie=value; domain=rust-lang.org; path=/").unwrap();

    assert_eq!("Cookie", cookie.name());
    assert_eq!("value", cookie.value());
    assert_eq!("rust-lang.org", cookie.domain().unwrap());
    assert_eq!("/", cookie.path().unwrap());
    assert_eq!(None, cookie.expires());
    assert!(!cookie.is_http_only());
}

#[test]
fn cookie_from_str() {
    let cookie = Cookie::from_str("Cookie=value; domain=rust-lang.org; path=/").unwrap();

    assert_eq!("Cookie", cookie.name());
    assert_eq!("value", cookie.value());
    assert_eq!("rust-lang.org", cookie.domain().unwrap());
    assert_eq!("/", cookie.path().unwrap());
}

#[test]
fn cookie_from_bytes_attributes() {
    let cookie = Cookie::from_bytes(
        b"id=a3fWa; Expires=Wed, 21 Oct 2015 07:28:00 GMT; Max-Age=60; Secure; HttpOnly; other=x",
    )
    .unwrap();

    assert_eq!("id", cookie.name());
    assert_eq!("a3fWa", cookie.value());
    assert_eq!("Wed, 21 Oct 2015 07:28:00 GMT", cookie.expires().unwrap());
    assert_eq!("60", cookie.max_age().unwrap());
    assert!(cookie.is_secure());
    assert!(cookie.is_http_only());
    assert_eq!(None, cookie.domain());
}

#[test]
fn cookie_from_bytes_missing_value() {
    assert!(matches!(Cookie::from_bytes(b"Cookie"), Err(None)));
    assert!(matches!(Cookie::from_bytes(b""), Err(None)));
    assert!(matches!(Cookie::from_bytes(b" ; "), Err(None)));
}

#[test]
fn cookie_from_bytes_invalid() {
    assert!(matches!(Cookie::from_bytes(b"Coo(kie=value"), Err(Some(FieldError::Name(b'(')))));
    assert!(matches!(Cookie::from_bytes(b"=value"), Err(Some(FieldError::Name(b'=')))));
    assert!(matches!(Cookie::from_bytes(b"Cookie=va,lue"), Err(Some(FieldError::Value(b',')))));
    assert!(matches!(
        Cookie::from_bytes(b"Cookie=value; pa(th=/"),
        Err(Some(FieldError::Name(b'(')))
    ));
}

// -------------------------------------------------------------------------------------------------
// Field segments
// -------------------------------------------------------------------------------------------------

#[test]
fn segments() {
    let field = b"  Name1 = Value 1 ;; NAME2;name3=\t";

    let (seg, next) = next_segment(field, 0, b';', true, b"").unwrap().unwrap();
    assert_eq!(seg, FieldSegment::NameValue(b"name1".to_vec(), b"Value 1".to_vec()));

    let (seg, next) = next_segment(field, next, b';', true, b"").unwrap().unwrap();
    assert_eq!(seg, FieldSegment::Name(b"name2".to_vec()));

    let (seg, next) = next_segment(field, next, b';', false, b"").unwrap().unwrap();
    assert_eq!(seg, FieldSegment::NameValue(b"name3".to_vec(), b"".to_vec()));

    assert_eq!(next, field.len());
    assert!(next_segment(field, next, b';', true, b"").unwrap().is_none());
}

#[test]
fn segment_errors() {
    assert_eq!(next_segment(b"a b=c", 0, b';', false, b""), Err(FieldError::Name(b' ')));
    assert_eq!(next_segment(b"a=b\x01", 0, b';', false, b""), Err(FieldError::Value(1)));
    assert_eq!(next_segment(b"a=b\\", 0, b';', false, b"\\"), Err(FieldError::Value(b'\\')));
}

// -------------------------------------------------------------------------------------------------
// FieldMap and FieldValue
// -------------------------------------------------------------------------------------------------

#[test]
fn field_map() {
    let mut map = FieldMap::new();

    map.push("key".to_string(), "value1".to_string());
    map.push("key".to_string(), "value2".to_string());
    map.push("other".to_string(), "value3".to_string());

    assert_eq!(2, map.len());
    assert_eq!(2, map.field("key").unwrap().len());

    assert_eq!("value1", map.field("key").unwrap().first().unwrap());
    assert_eq!("value1", map.field("key").unwrap().get(0).unwrap());
    assert_eq!("value2", map.field("key").unwrap().get(1).unwrap());

    map.field_mut("key").unwrap().remove(1);

    assert_eq!(1, map.field("key").unwrap().len());

    assert_eq!(1, map.remove("key").unwrap().len());
    assert!(map.remove("key").is_none());

    assert_eq!(false, map.has_field("key"));
    assert_eq!(true, map.has_field("other"));
    assert!(!map.is_empty());

    map.clear();

    assert!(map.is_empty());
    assert!(map.field("other").is_none());
}

#[test]
fn field_map_with_capacity() {
    let map = FieldMap::with_capacity(8);

    assert!(map.is_empty());
    assert_eq!(0, map.as_map().len());
}

#[test]
fn field_value() {
    let mut value = FieldValue::new();

    assert!(value.is_empty());
    assert!(value.first().is_none());
    assert!(value.get(5).is_none());

    value.push("a".to_string()).push("b".to_string());

    assert_eq!(2, value.len());
    assert_eq!(["a".to_string(), "b".to_string()], value.all());
    assert_eq!("b", value.get(1).unwrap());
    assert_eq!(Some("a".to_string()), value.remove(0));
    assert_eq!(None, value.remove(3));
    assert_eq!(1, value.as_vec().len());

    value.as_mut_vec().push("c".to_string());

    assert_eq!("c", value.get(1).unwrap());
}

#[test]
fn name_map_replaces() {
    let mut map: StringMap = NameMap::new();

    map.insert("a".to_string(), "1".to_string());
    map.insert("b".to_string(), "2".to_string());
    map.insert("a".to_string(), "3".to_string());

    assert_eq!(2, map.len());
    assert_eq!("3", map.get("a").unwrap());
    assert!(map.contains_key("b"));
    assert!(!map.contains_key("c"));

    map.clear();

    assert!(map.is_empty());
}

#[test]
fn cookie_flags_follow_last_setter() {
    let mut c = Cookie::new("id", "1");

    assert!(!c.is_secure());
    c.set_secure(true).set_domain("a").set_http_only(true).set_path("/");
    assert!(c.is_secure());
    c.set_secure(false).set_value("2");
    assert!(!c.is_secure());
    assert!(c.is_http_only());
    c.set_http_only(false).set_secure(true);
    assert!(c.is_secure());
    assert!(!c.is_http_only());
}
