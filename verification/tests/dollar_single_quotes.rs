use shell_lexer::lexer::dollar_single_quotes::tokenize_dollar_single_quotes;

#[test]
fn test_dollar_single_quotes_simple() {
    assert_eq!(
        37,
        tokenize_dollar_single_quotes(&String::from(r"$'Hello, World!\nThis is a new line.'"), 0)
            .unwrap()
    );
    assert_eq!(
        1,
        tokenize_dollar_single_quotes(&String::from(r"$'Hello, World!\nThis is a new line.'"), 1)
            .unwrap()
    );
    assert_eq!(
        13,
        tokenize_dollar_single_quotes(&String::from(r" $'Column1\t' is valid"), 1).unwrap()
    );
    assert_eq!(
        31,
        tokenize_dollar_single_quotes(&String::from(r"echo $'This is a backslash: \\' Alrighty"), 5)
            .unwrap()
    );
    assert_eq!(
        23,
        tokenize_dollar_single_quotes(&String::from(r"$'Line1\nLine2\tTabbed'"), 0).unwrap()
    );
    assert_eq!(
        5,
        tokenize_dollar_single_quotes(&String::from(r"$'It'\''s a test'"), 0).unwrap()
    );
    assert_eq!(
        16,
        tokenize_dollar_single_quotes(&String::from(r"$'Hello, $USER!'"), 0).unwrap()
    );
    assert_eq!(
        28,
        tokenize_dollar_single_quotes(&String::from(r"$'Special chars: !@#$%^&*()'"), 0).unwrap()
    );
    assert_eq!(
        14,
        tokenize_dollar_single_quotes(&String::from(r"$'Hello World'"), 0).unwrap()
    );
}

#[test]
fn test_backslash_simple_characters() {
    // \t \n \a etc.
    // To check pointers are correct we can put \c0 immediately after which, if the \ is
    // detected it should throw an error due to c0 thus verifying pointer is correct.
    assert_eq!(
        r"\c not followed by a Circumflex Control Character at index 12",
        tokenize_dollar_single_quotes(&String::from(r"$'Hello \t\c0'"), 0)
            .unwrap_err()
            .message()
    );
    assert_eq!(
        r"\c not followed by a Circumflex Control Character at index 18",
        tokenize_dollar_single_quotes(&String::from(r"$'Hello World \n\c0'"), 0)
            .unwrap_err()
            .message()
    );
    assert_eq!(
        r"\c not followed by a Circumflex Control Character at index 25",
        tokenize_dollar_single_quotes(&String::from(r"$'Hello World \n \f \r \c0'"), 0)
            .unwrap_err()
            .message()
    );
    assert_eq!(
        r"\c not followed by a Circumflex Control Character at index 22",
        tokenize_dollar_single_quotes(&String::from(r"$'Hello World \n\f\r\c0'"), 0)
            .unwrap_err()
            .message()
    );

    assert_eq!(
        20,
        tokenize_dollar_single_quotes(&String::from(r"$'Hello World \n\ca' OK"), 0).unwrap()
    );
    assert_eq!(
        21,
        tokenize_dollar_single_quotes(&String::from(r"$'Hello World \n\f\r'"), 0).unwrap()
    );
}

#[test]
fn test_backslash_control_char() {
    // test a-Z :
    assert_eq!(
        18,
        tokenize_dollar_single_quotes(&String::from(r"$'Hello World \ca' OK"), 0).unwrap()
    );
    assert_eq!(
        18,
        tokenize_dollar_single_quotes(&String::from(r"$'Hello World \cA' OK"), 0).unwrap()
    );
    assert_eq!(
        18,
        tokenize_dollar_single_quotes(&String::from(r"$'Hello World \cW' OK"), 0).unwrap()
    );
    assert_eq!(
        18,
        tokenize_dollar_single_quotes(&String::from(r"$'Hello World \cw' OK"), 0).unwrap()
    );
    assert_eq!(
        18,
        tokenize_dollar_single_quotes(&String::from(r"$'Hello World \cz' OK"), 0).unwrap()
    );
    assert_eq!(
        18,
        tokenize_dollar_single_quotes(&String::from(r"$'Hello World \cZ' OK"), 0).unwrap()
    );
    assert_eq!(
        r"\c not followed by a Circumflex Control Character at index 16",
        tokenize_dollar_single_quotes(&String::from(r"$'Hello World \c0' OK"), 0)
            .unwrap_err()
            .message()
    );
    assert_eq!(
        r"\c not followed by a Circumflex Control Character at index 16",
        tokenize_dollar_single_quotes(&String::from(r"$'Hello World \c9' OK"), 0)
            .unwrap_err()
            .message()
    );
    assert_eq!(
        r"\c not followed by a Circumflex Control Character at index 16",
        tokenize_dollar_single_quotes(&String::from(r"$'Hello World \c-' OK"), 0)
            .unwrap_err()
            .message()
    );

    // Test valid more complex :
    assert_eq!(
        18,
        tokenize_dollar_single_quotes(&String::from(r"$'Hello World \c_' OK"), 0).unwrap()
    );
    assert_eq!(
        24,
        tokenize_dollar_single_quotes(&String::from(r"$'Hello World \c_______' OK"), 0).unwrap()
    );
    assert_eq!(
        18,
        tokenize_dollar_single_quotes(&String::from(r"$'Hello World \c?' OK"), 0).unwrap()
    );
    assert_eq!(
        22,
        tokenize_dollar_single_quotes(&String::from(r"$'Hello World \c??\c?' OK"), 0).unwrap()
    );
    assert_eq!(
        21,
        tokenize_dollar_single_quotes(&String::from(r"$'Hello World \c[\c]' OK"), 0).unwrap()
    );
    assert_eq!(
        18,
        tokenize_dollar_single_quotes(&String::from(r"$'Hello World \c]' OK"), 0).unwrap()
    );
    assert_eq!(
        23,
        tokenize_dollar_single_quotes(&String::from(r"$'Hello World \c[][][]' OK"), 0).unwrap()
    );
    assert_eq!(
        20,
        tokenize_dollar_single_quotes(&String::from(r"$'Hello World \c^\n' OK"), 0).unwrap()
    );
    assert_eq!(
        19,
        tokenize_dollar_single_quotes(&String::from(r"$'Hello World \c^6' OK"), 0).unwrap()
    );
    assert_eq!(
        21,
        tokenize_dollar_single_quotes(&String::from(r"$'Hello World \c^^^^' OK"), 0).unwrap()
    );

    // Test it sets pointer correctly :
    assert_eq!(
        r"\c not followed by a Circumflex Control Character at index 19",
        tokenize_dollar_single_quotes(&String::from(r"$'Hello World \ca\c0' OK"), 0)
            .unwrap_err()
            .message()
    );
    assert_eq!(
        r"\c not followed by a Circumflex Control Character at index 19",
        tokenize_dollar_single_quotes(&String::from(r"$'Hello World \c_\c0' OK"), 0)
            .unwrap_err()
            .message()
    );

    // Test backslash error and valid :
    assert_eq!(
        r"\c not followed by a Circumflex Control Character at index 17",
        tokenize_dollar_single_quotes(&String::from(r"$'Hello World \c\' OK"), 0)
            .unwrap_err()
            .message()
    );
    assert_eq!(
        r"\c not followed by a Circumflex Control Character at index 20",
        tokenize_dollar_single_quotes(&String::from(r"$'Hello World \c\\\c0' OK"), 0)
            .unwrap_err()
            .message()
    );
    assert_eq!(
        25,
        tokenize_dollar_single_quotes(&String::from(r"$'Hello World \c\\ \n \t' OK"), 0).unwrap()
    );
}

#[test]
fn test_hexadecimal() {
    // test invalid ones :
    assert_eq!(
        r"\x not followed by a hexadecimal character at index 10",
        tokenize_dollar_single_quotes(&String::from(r"$'Hello \xGG' OK"), 0)
            .unwrap_err()
            .message()
    );
    assert_eq!(
        r"\x not followed by a hexadecimal character at index 10",
        tokenize_dollar_single_quotes(&String::from(r"$'Hello \x\n' OK"), 0)
            .unwrap_err()
            .message()
    );
    assert_eq!(
        r"\x not followed by a hexadecimal character at index 10",
        tokenize_dollar_single_quotes(&String::from(r"$'Hello \x' OK"), 0)
            .unwrap_err()
            .message()
    );
    assert_eq!(
        r"\x not followed by a hexadecimal character at index 10",
        tokenize_dollar_single_quotes(&String::from(r"$'Hello \x-1' OK"), 0)
            .unwrap_err()
            .message()
    );
    assert_eq!(
        r"\x not followed by a hexadecimal character at index 10",
        tokenize_dollar_single_quotes(&String::from(r"$'Hello \xH' OK"), 0)
            .unwrap_err()
            .message()
    );

    // Test the 2nd one is optional :
    assert_eq!(
        13,
        tokenize_dollar_single_quotes(&String::from(r"$'Hello \xFG' OK"), 0).unwrap()
    );
    assert_eq!(
        13,
        tokenize_dollar_single_quotes(&String::from(r"$'Hello \x9G' OK"), 0).unwrap()
    );
    assert_eq!(
        13,
        tokenize_dollar_single_quotes(&String::from(r"$'Hello \xF1' OK"), 0).unwrap()
    );
    assert_eq!(
        12,
        tokenize_dollar_single_quotes(&String::from(r"$'Hello \x7' OK"), 0).unwrap()
    );
    assert_eq!(
        13,
        tokenize_dollar_single_quotes(&String::from(r"$'Hello \x7 ' OK"), 0).unwrap()
    );
    assert_eq!(
        12,
        tokenize_dollar_single_quotes(&String::from(r"$'Hello \x0' OK"), 0).unwrap()
    );
    assert_eq!(
        r"\c not followed by a Circumflex Control Character at index 13",
        tokenize_dollar_single_quotes(&String::from(r"$'Hello \x7\c0' OK"), 0)
            .unwrap_err()
            .message()
    );
    assert_eq!(
        r"\c not followed by a Circumflex Control Character at index 14",
        tokenize_dollar_single_quotes(&String::from(r"$'Hello \x11\c0' OK"), 0)
            .unwrap_err()
            .message()
    );
    assert_eq!(
        r"\c not followed by a Circumflex Control Character at index 14",
        tokenize_dollar_single_quotes(&String::from(r"$'Hello \x1G\c0' OK"), 0)
            .unwrap_err()
            .message()
    );
}

#[test]
fn test_dollar_quote_exact_scan_positions() {
    // A success returns the index one past the closing quote.
    assert_eq!(
        12,
        tokenize_dollar_single_quotes(&String::from(r"$'Hello \x7'"), 0).unwrap()
    );
    assert_eq!(
        r"\c not followed by a Circumflex Control Character at index 10",
        tokenize_dollar_single_quotes(&String::from(r"$'Hello \c0'"), 0)
            .unwrap_err()
            .message()
    );
    assert_eq!(
        r"\x not followed by a hexadecimal character at index 10",
        tokenize_dollar_single_quotes(&String::from(r"$'Hello \x'"), 0)
            .unwrap_err()
            .message()
    );
    assert_eq!(
        3,
        tokenize_dollar_single_quotes(&String::from(r"$''"), 0).unwrap()
    );
}

#[test]
fn test_dollar_quote_octal_escapes() {
    // One to three octal digits, greedy but bounded to three.
    assert_eq!(
        5,
        tokenize_dollar_single_quotes(&String::from(r"$'\7'"), 0).unwrap()
    );
    assert_eq!(
        6,
        tokenize_dollar_single_quotes(&String::from(r"$'\12'"), 0).unwrap()
    );
    assert_eq!(
        7,
        tokenize_dollar_single_quotes(&String::from(r"$'\101'"), 0).unwrap()
    );
    // A fourth digit is an ordinary character.
    assert_eq!(
        8,
        tokenize_dollar_single_quotes(&String::from(r"$'\1234'"), 0).unwrap()
    );
    assert_eq!(
        r"\ followed by an invalid character at index 4",
        tokenize_dollar_single_quotes(&String::from(r"$'a\q'"), 0)
            .unwrap_err()
            .message()
    );
}

#[test]
fn test_dollar_quote_escaped_quote_does_not_close() {
    // The envelope closes on the first unescaped quote only.
    assert_eq!(
        5,
        tokenize_dollar_single_quotes(&String::from(r"$'\''"), 0).unwrap()
    );
    assert_eq!(
        7,
        tokenize_dollar_single_quotes(&String::from(r"$'a\'b'x"), 0).unwrap()
    );
}

#[test]
fn test_dollar_quote_no_match_and_unterminated() {
    // `$` not followed by a quote opens nothing.
    assert_eq!(
        0,
        tokenize_dollar_single_quotes(&String::from(r"$USER"), 0).unwrap()
    );
    assert_eq!(
        0,
        tokenize_dollar_single_quotes(&String::from(r"$"), 0).unwrap()
    );
    assert_eq!(
        "Unterminated dollar-single-quote at index 0",
        tokenize_dollar_single_quotes(&String::from(r"$'abc"), 0)
            .unwrap_err()
            .message()
    );
    assert_eq!(
        "Unterminated dollar-single-quote at index 5",
        tokenize_dollar_single_quotes(&String::from(r"echo $'x\t"), 5)
            .unwrap_err()
            .message()
    );
}
