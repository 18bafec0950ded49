use yaslapi::ident::is_valid_identifier;

#[test]
fn names_of_variables_are_identifiers() {
    for name in ["answer", "rust_print", "x", "p", "q", "__add", "tostr", "_", "$", "a1", "A_b$9"] {
        assert!(is_valid_identifier(name), "{:?}", name);
    }
}

#[test]
fn the_empty_name_is_no_identifier() {
    assert!(!is_valid_identifier(""));
}

#[test]
fn an_identifier_does_not_start_with_a_digit() {
    assert!(!is_valid_identifier("9x"));
    assert!(!is_valid_identifier("0"));
    assert!(is_valid_identifier("x9"));
}

#[test]
fn an_identifier_holds_no_other_character() {
    for name in ["a-b", "a b", " a", "a ", "a.b", "a\0b", "\0", "a\n", "[", "a^b", "`a`", "é", "aé", "日本"] {
        assert!(!is_valid_identifier(name), "{:?}", name);
    }
}
