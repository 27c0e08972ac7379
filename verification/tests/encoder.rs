use respkv::resp::encoder::{
    array_string_encode, bulk_string_encode, null_bulk_string_encode, null_encode,
    simple_string_encode,
};

#[test]
fn simple_string_is_plus_text_crlf() {
    assert_eq!(simple_string_encode(&"OK".to_string()), "+OK\r\n");
    assert_eq!(simple_string_encode(&"".to_string()), "+\r\n");
}

#[test]
fn bulk_string_carries_its_length() {
    assert_eq!(bulk_string_encode(&"bar".to_string()), "$3\r\nbar\r\n");
    assert_eq!(bulk_string_encode(&"".to_string()), "$0\r\n\r\n");
    assert_eq!(bulk_string_encode(&"hello world".to_string()), "$11\r\nhello world\r\n");
}

#[test]
fn bulk_string_counts_bytes_not_characters() {
    assert_eq!(bulk_string_encode(&"h\u{e9}".to_string()), "$3\r\nh\u{e9}\r\n");
    assert_eq!(bulk_string_encode(&"\u{1f600}".to_string()), "$4\r\n\u{1f600}\r\n");
}

#[test]
fn bulk_string_writes_long_lengths_in_decimal() {
    let text = "x".repeat(1205);
    assert_eq!(bulk_string_encode(&text), format!("$1205\r\n{}\r\n", text));
    let text = "y".repeat(100);
    assert_eq!(bulk_string_encode(&text), format!("$100\r\n{}\r\n", text));
}

#[test]
fn array_holds_count_and_bulk_strings() {
    let a = "dir".to_string();
    let b = "/tmp/redis-files".to_string();
    assert_eq!(
        array_string_encode(vec![&a, &b]),
        "*2\r\n$3\r\ndir\r\n$16\r\n/tmp/redis-files\r\n"
    );
}

#[test]
fn empty_array_is_star_zero() {
    assert_eq!(array_string_encode(vec![]), "*0\r\n");
}

#[test]
fn array_of_twelve_items() {
    let items: Vec<String> = (0..12).map(|i| format!("k{}", i)).collect();
    let refs: Vec<&String> = items.iter().collect();
    let mut expected = String::from("*12\r\n");
    for item in &items {
        expected.push_str(&format!("${}\r\n{}\r\n", item.len(), item));
    }
    assert_eq!(array_string_encode(refs), expected);
}

#[test]
fn null_bulk_is_dollar_minus_one() {
    assert_eq!(null_bulk_string_encode(), "$-1\r\n");
    assert_eq!(null_encode(), "$-1\r\n");
}
