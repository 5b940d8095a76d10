use rusty_toolbox::reformat::hex_string_to_c_array;
use rusty_toolbox::reformat::reformat;
use rusty_toolbox::reformat::ReformatError;

#[test]
fn clean_even_input_yields_one_token_per_pair() {
    assert_eq!(reformat("1a2b", ""), Ok("{ 0x1A, 0x2B }".to_string()));
    assert_eq!(reformat("deadbeef", ""), Ok("{ 0xDE, 0xAD, 0xBE, 0xEF }".to_string()));
    assert_eq!(reformat("AB", ""), Ok("{ 0xAB }".to_string()));
}

#[test]
fn zero_x_prefixes_are_stripped() {
    assert_eq!(reformat("0xDE0xAD", ""), Ok("{ 0xDE, 0xAD }".to_string()));
}

#[test]
fn spaces_are_stripped() {
    assert_eq!(reformat("de ad be ef", ""), Ok("{ 0xDE, 0xAD, 0xBE, 0xEF }".to_string()));
}

#[test]
fn odd_normalized_length_is_rejected() {
    assert_eq!(reformat("abc", ""), Err(ReformatError::OddLength));
    assert_eq!(reformat("a", ""), Err(ReformatError::OddLength));
    assert_eq!(reformat("0xA", ""), Err(ReformatError::OddLength));
}

#[test]
fn bin_selector_renders_ascii_bytes() {
    assert_eq!(reformat("AB", "bin"), Ok("Binary: 0100000101000010".to_string()));
}

#[test]
fn bin_selector_renders_utf8_bytes() {
    // One non-ASCII character contributes one group per UTF-8 byte:
    // U+00E9 encodes as 0xC3 0xA9.
    assert_eq!(reformat("\u{e9}", "bin"), Ok("Binary: 1100001110101001".to_string()));
}

#[test]
fn bin_selector_on_empty_input_is_just_the_prefix() {
    assert_eq!(reformat("", "bin"), Ok("Binary: ".to_string()));
}

#[test]
fn unknown_selector_is_rejected() {
    assert_eq!(reformat("x", "foo"), Err(ReformatError::InvalidFormat));
    assert_eq!(reformat("dead", "hex"), Err(ReformatError::InvalidFormat));
}

#[test]
fn repeated_calls_agree() {
    let first = reformat("0xde ad", "");
    let second = reformat("0xde ad", "");
    assert_eq!(first, second);
    assert_eq!(first, Ok("{ 0xDE, 0xAD }".to_string()));
}

#[test]
fn surrounding_white_space_is_trimmed() {
    assert_eq!(reformat("\tde ad \n", ""), Ok("{ 0xDE, 0xAD }".to_string()));
}

#[test]
fn empty_input_keeps_the_template_spaces() {
    // Zero tokens joined and wrapped leave the two interior spaces of
    // the template in place.
    assert_eq!(reformat("", ""), Ok("{  }".to_string()));
    assert_eq!(reformat("0x", ""), Ok("{  }".to_string()));
}

#[test]
fn removal_order_is_spaces_then_lowercase_0x() {
    // After "0x" removal a new "0x" pair may come together; it is not
    // rescanned, and upper-case "0X" is never stripped.
    assert_eq!(reformat("00xx", ""), Ok("{ 0x0X }".to_string()));
    assert_eq!(reformat("0X12", ""), Ok("{ 0x0X, 0x12 }".to_string()));
    // Space removal happens first, so "0 x" comes together into "0x"
    // and is then stripped.
    assert_eq!(reformat("0 x12", ""), Ok("{ 0x12 }".to_string()));
}

#[test]
fn hex_string_to_c_array_does_not_trim() {
    assert_eq!(hex_string_to_c_array("dead"), Ok("{ 0xDE, 0xAD }".to_string()));
    assert_eq!(hex_string_to_c_array("abc"), Err(ReformatError::OddLength));
    // A tab is not a space character, so it survives normalization and
    // lands in a chunk.
    assert_eq!(hex_string_to_c_array("\tdea"), Ok("{ 0x\tD, 0xEA }".to_string()));
}

#[test]
fn error_messages() {
    assert_eq!(
        ReformatError::OddLength.message(),
        "Invalid input: Length of input string is not even."
    );
    assert_eq!(ReformatError::InvalidFormat.message(), "Invalid output format");
}
