use gpumem::text::to_upper_camel_case;

#[test]
fn test_to_upper_camel_case() {
    assert_eq!(to_upper_camel_case("test_string", true), "TestString");
    assert_eq!(to_upper_camel_case("test_string", false), "Test_string");
    assert_eq!(to_upper_camel_case("[Test]_String", true), "TestString");
    assert_eq!(to_upper_camel_case("[Test]_String", false), "Test_string");
    assert_eq!(
        to_upper_camel_case("multiple_words_string", true),
        "MultipleWordsString"
    );
}
