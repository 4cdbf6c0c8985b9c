use gpumem::chars::{parse_usize, split, string_of, trim};
use gpumem::derive::{
    generate_from_rule_impl_enums, generate_from_rule_impl_opc, get_attribute, parse_derive, Attr,
    AttrValue, DeriveError,
};
use gpumem::grammar::{
    format_enum_value_str, generate_peg_grammar_enums, get_enum_value_str, sort_listed, str_lt,
};
use gpumem::instructions::{generate_peg_grammar, generate_peg_grammar_instructions};
use gpumem::isa::{BitSetEnum, BitSetEnumValue, Bitset, BitsetTemplate, ISA};
use gpumem::strmap::StrMap;
use gpumem::text::to_upper_camel_case;

fn value(display: &str, name: Option<&str>, val: &str) -> BitSetEnumValue {
    BitSetEnumValue {
        display: display.to_string(),
        name: name.map(|n| n.to_string()),
        value: val.to_string(),
    }
}

fn mock_isa() -> ISA {
    let mut isa = ISA::empty();
    let mut meta = StrMap::new();
    meta.insert("type".to_string(), "alu".to_string());
    meta.insert("has_dest".to_string(), "true".to_string());
    meta.insert("valid_srcs".to_string(), "0".to_string());
    isa.bitsets.insert(
        "bitset1".to_string(),
        Bitset {
            name: "bitset1".to_string(),
            extends: None,
            meta: Some(meta),
        },
    );
    isa.enums.insert(
        "enum1".to_string(),
        BitSetEnum {
            name: "enum1".to_string(),
            values: vec![
                value("val1", Some("val1_name"), "0"),
                value("val2", Some("val2_name"), "1"),
            ],
        },
    );
    isa.templates.insert(
        "INSTR_ALU".to_string(),
        BitsetTemplate {
            name: "INSTR_ALU".to_string(),
            display: "{DST_FULL}{SAT}{COND}".to_string(),
        },
    );
    isa
}

const ENUMS: &str = "Enum1 = { Val2_name | Val1_name }\n    Val2_name = { \"val2\" }\n    Val1_name = { \"val1\" }\n\n";
const INSTRUCTIONS: &str = "instruction = _{ OpcBitset1 }\n    OpcBitset1 = { \"bitset1\" ~ Dst_full? ~ Sat? ~ Cond? ~ Dest ~ \",\" ~ Src ~ \",\" ~ SrcVoid ~ \",\" ~ SrcVoid }\n";

#[test]
fn peg_grammar_enums_of_mock_isa() {
    let isa = mock_isa();
    assert_eq!(generate_peg_grammar_enums(&isa), ENUMS);
}

#[test]
fn peg_grammar_instructions_of_mock_isa() {
    let isa = mock_isa();
    let grammar = generate_peg_grammar_instructions(&isa);
    assert_eq!(grammar, INSTRUCTIONS);
    assert!(grammar.contains("OpcBitset1 = { \"bitset1\" ~ Dst_full? ~ Sat? ~ Cond? ~ Dest ~ \",\" ~ Src ~ \",\" ~ SrcVoid ~ \",\" ~ SrcVoid }"));
}

#[test]
fn peg_grammar_of_mock_isa() {
    let isa = mock_isa();
    let expected = format!(
        "{}{}{}",
        ENUMS, INSTRUCTIONS, "instructions = _{ SOI ~ (instruction ~ NEWLINE?)* ~ EOI }"
    );
    assert_eq!(generate_peg_grammar(&isa), expected);
}

#[test]
fn peg_grammar_of_empty_isa() {
    let isa = ISA::empty();
    assert_eq!(generate_peg_grammar_enums(&isa), "");
    assert_eq!(generate_peg_grammar_instructions(&isa), "instruction = _{  }\n");
}

fn instruction_isa(name: &str, pairs: &[(&str, &str)]) -> ISA {
    let mut isa = ISA::empty();
    let mut meta = StrMap::new();
    for (k, v) in pairs {
        meta.insert(k.to_string(), v.to_string());
    }
    isa.bitsets.insert(
        "#hidden".to_string(),
        Bitset {
            name: "#hidden".to_string(),
            extends: None,
            meta: None,
        },
    );
    isa.bitsets.insert(
        name.to_string(),
        Bitset {
            name: name.to_string(),
            extends: None,
            meta: if pairs.is_empty() { None } else { Some(meta) },
        },
    );
    isa.templates.insert(
        "INSTR_CF".to_string(),
        BitsetTemplate {
            name: "INSTR_CF".to_string(),
            display: "  {NAME}{RMODE}{ }{PMODE} ".to_string(),
        },
    );
    isa
}

#[test]
fn instruction_rule_of_control_flow() {
    let isa = instruction_isa("branch", &[("type", "cf"), ("valid_srcs", "0|+1|x|")]);
    assert_eq!(
        generate_peg_grammar_instructions(&isa),
        "instruction = _{ OpcBranch }\n    OpcBranch = { \"branch\" ~ Rounding? ~ Pmode? ~ DestVoid ~ \",\" ~ Src ~ \",\" ~ Src ~ \",\" ~ Target }\n"
    );
}

#[test]
fn instruction_rule_of_texture_and_load_store() {
    let isa = instruction_isa("texld", &[("type", "tex"), ("has_dest", "true"), ("valid_srcs", "2")]);
    assert_eq!(
        generate_peg_grammar_instructions(&isa),
        "instruction = _{ OpcTexld }\n    OpcTexld = { \"texld\" ~ Dest ~ \",\" ~ TexSrc ~ \",\" ~ SrcVoid ~ \",\" ~ SrcVoid ~ \",\" ~ Src }\n"
    );
    let isa = instruction_isa("load", &[("type", "load_store"), ("has_dest", "true")]);
    assert_eq!(
        generate_peg_grammar_instructions(&isa),
        "instruction = _{ OpcLoad }\n    OpcLoad = { \"load\" ~ (Dest | DstMemAddr) ~ \",\" ~ SrcVoid ~ \",\" ~ SrcVoid ~ \",\" ~ SrcVoid }\n"
    );
    let isa = instruction_isa("nop", &[]);
    assert_eq!(
        generate_peg_grammar_instructions(&isa),
        "instruction = _{ OpcNop }\n    OpcNop = { \"nop\" ~ DestVoid ~ \",\" ~ SrcVoid ~ \",\" ~ SrcVoid ~ \",\" ~ SrcVoid }\n"
    );
}

#[test]
fn enum_values_sorted_descending_and_filtered() {
    let values = vec![
        value("t1", None, "0"),
        value("", None, "1"),
        value("th1", None, "2"),
        value(".____", None, "3"),
        value("t1", Some("other"), "4"),
        value("z", None, "5"),
    ];
    assert_eq!(sort_listed(&values), vec![5, 2, 0, 4]);
    let mut isa = ISA::empty();
    isa.enums.insert(
        "#thread".to_string(),
        BitSetEnum {
            name: "#thread".to_string(),
            values,
        },
    );
    assert_eq!(
        generate_peg_grammar_enums(&isa),
        "Thread = { Z | Th1 | T1 | Other }\n    Z = { \"z\" }\n    Th1 = { \"th1\" }\n    T1 = { \"t1\" }\n    Other = { \"t1\" }\n\n"
    );
}

#[test]
fn strings_ordered_by_bytes() {
    assert!(str_lt("a", "b"));
    assert!(!str_lt("b", "a"));
    assert!(str_lt("a", "ab"));
    assert!(!str_lt("ab", "a"));
    assert!(!str_lt("a", "a"));
    assert!(str_lt("", "a"));
    assert!(!str_lt("", ""));
    assert!(str_lt("z", "é"));
    assert_eq!(str_lt("Z", "a"), "Z" < "a");
}

#[test]
fn enum_value_strings() {
    assert_eq!(format_enum_value_str("isa_cond", "gt.x[0]"), "ISA_COND_GTX0");
    assert_eq!(format_enum_value_str("a", ""), "A_");
    assert_eq!(format_enum_value_str("é", "ß"), "é_ß");
    assert_eq!(
        get_enum_value_str("isa_e", &value("disp", Some("na.me"), "0")),
        "ISA_E_NAME"
    );
    assert_eq!(get_enum_value_str("isa_e", &value("d[1]", None, "0")), "ISA_E_D1");
}

#[test]
fn camel_case_edges() {
    assert_eq!(to_upper_camel_case("", true), "");
    assert_eq!(to_upper_camel_case("  a\tb  ", false), "AB");
    assert_eq!(to_upper_camel_case("HELLO wORLD", false), "HelloWorld");
    assert_eq!(to_upper_camel_case("ßx", false), "SSx");
    assert_eq!(to_upper_camel_case("_._", true), "");
    assert_eq!(to_upper_camel_case("a\u{a0}b", false), "AB");
}

#[test]
fn split_trim_and_parse() {
    let chars: Vec<char> = "{A}{B}".chars().collect();
    let pieces: Vec<String> = split(&chars, '{', '}').iter().map(|p| string_of(p)).collect();
    assert_eq!(pieces, vec!["", "A", "", "B", ""]);
    let none: Vec<char> = Vec::new();
    assert_eq!(split(&none, '|', '|').len(), 1);
    let padded: Vec<char> = " \t x y \n".chars().collect();
    assert_eq!(string_of(&trim(&padded)), "x y");
    let blank: Vec<char> = "   ".chars().collect();
    assert_eq!(string_of(&trim(&blank)), "");
    for (text, expected) in [
        ("0", Some(0usize)),
        ("+7", Some(7)),
        ("007", Some(7)),
        ("", None),
        ("+", None),
        ("-1", None),
        ("1 ", None),
        ("12a", None),
        ("18446744073709551615", "18446744073709551615".parse::<usize>().ok()),
        ("18446744073709551616", "18446744073709551616".parse::<usize>().ok()),
        ("99999999999999999999999", None),
    ] {
        let chars: Vec<char> = text.chars().collect();
        assert_eq!(parse_usize(&chars), expected);
        assert_eq!(parse_usize(&chars), text.parse::<usize>().ok());
    }
}

fn attr(name: &str, value: AttrValue) -> Attr {
    Attr {
        name: name.to_string(),
        value,
    }
}

#[test]
fn derive_ok() {
    let attrs = vec![
        attr("other_attr", AttrValue::NotNameValue),
        attr("isa", AttrValue::Str("myfile.isa".to_string())),
        attr("static_rules_file", AttrValue::Str("static_rules.pest".to_string())),
    ];
    let (isa, static_rules) = parse_derive(&attrs).unwrap();
    assert_eq!(isa, "myfile.isa");
    assert_eq!(static_rules, "static_rules.pest");
}

#[test]
fn derive_errors() {
    let attrs = vec![
        attr("other_attr", AttrValue::NotNameValue),
        attr("isa", AttrValue::Other),
        attr("static_rules_file", AttrValue::Str("static_rules.pest".to_string())),
    ];
    assert_eq!(parse_derive(&attrs), Err(DeriveError::NotAString));
    assert_eq!(DeriveError::NotAString.message(), "Attribute must be a string");
    let attrs = vec![
        attr("isa", AttrValue::Str("test.xml".to_string())),
        attr("static_rules_file", AttrValue::Other),
    ];
    assert_eq!(parse_derive(&attrs), Err(DeriveError::NotAString));
    let attrs = vec![attr("other_attr", AttrValue::NotNameValue)];
    assert_eq!(parse_derive(&attrs), Err(DeriveError::MissingIsa));
    assert_eq!(
        DeriveError::MissingIsa.message(),
        "An ISA file needs to be provided with the #[isa = \"PATH\"] attribute"
    );
    let attrs = vec![attr("isa", AttrValue::Str("a".to_string()))];
    assert_eq!(parse_derive(&attrs), Err(DeriveError::MissingStaticRules));
    let attrs = vec![attr("isa", AttrValue::NotNameValue)];
    assert_eq!(parse_derive(&attrs), Err(DeriveError::NotNameValue));
    assert_eq!(
        get_attribute(&attr("other", AttrValue::Str("a".to_string()))),
        Err(DeriveError::NotAPath)
    );
    assert_eq!(DeriveError::NotAPath.message(), "Attribute must be a file path");
    // the first attribute of a name decides
    let attrs = vec![
        attr("isa", AttrValue::Str("first".to_string())),
        attr("isa", AttrValue::Other),
        attr("static_rules_file", AttrValue::Str("r".to_string())),
    ];
    assert_eq!(parse_derive(&attrs), Ok(("first".to_string(), "r".to_string())));
}

#[test]
fn from_rule_tables() {
    let isa = mock_isa();
    let enums = generate_from_rule_impl_enums(&isa);
    assert_eq!(enums.len(), 1);
    assert_eq!(enums[0].target, "isa_enum1");
    let arms: Vec<(&str, &str)> = enums[0]
        .arms
        .iter()
        .map(|a| (a.rule.as_str(), a.variant.as_str()))
        .collect();
    assert_eq!(
        arms,
        vec![
            ("Val1_name", "ISA_ENUM1_VAL1_NAME"),
            ("Val2_name", "ISA_ENUM1_VAL2_NAME")
        ]
    );
    let opc = generate_from_rule_impl_opc(&isa);
    assert_eq!(opc.target, "isa_opc");
    assert_eq!(opc.arms.len(), 1);
    assert_eq!(opc.arms[0].rule, "OpcBitset1");
    assert_eq!(opc.arms[0].variant, "ISA_OPC_BITSET1");
}
