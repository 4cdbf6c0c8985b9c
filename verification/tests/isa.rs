use gpumem::isa::{Bitset, IndexedMap, ISA};
use gpumem::strmap::StrMap;

fn meta_of(key: &str, value: &str) -> StrMap {
    let mut m = StrMap::new();
    m.insert(key.to_string(), value.to_string());
    m
}

#[test]
fn test_indexed_map_insert_and_get_by_key() {
    let mut map = IndexedMap::new();
    map.insert("key1".to_string(), 10);
    map.insert("key2".to_string(), 20);

    assert_eq!(map.get_by_key("key1"), Some(&10));
    assert_eq!(map.get_by_key("key2"), Some(&20));
    assert_eq!(map.get_by_key("key3"), None);
}

#[test]
fn test_indexed_map_iteration() {
    let mut map = IndexedMap::new();
    map.insert("key1".to_string(), 10);
    map.insert("key2".to_string(), 20);

    let mut values: Vec<&i32> = Vec::new();
    let mut it = map.iter();
    while let Some(v) = it.next() {
        values.push(v);
    }
    assert_eq!(values, vec![&10, &20]);
}

#[test]
fn test_collect_meta() {
    let mut isa = ISA::empty();
    isa.bitsets.insert(
        "bitset1".to_string(),
        Bitset {
            name: "bitset1".to_string(),
            extends: None,
            meta: Some(meta_of("key1", "value1")),
        },
    );
    isa.bitsets.insert(
        "bitset2".to_string(),
        Bitset {
            name: "bitset2".to_string(),
            extends: Some("bitset1".to_string()),
            meta: Some(meta_of("key2", "value2")),
        },
    );
    isa.bitsets.insert(
        "bitset3".to_string(),
        Bitset {
            name: "bitset3".to_string(),
            extends: Some("bitset2".to_string()),
            meta: Some(meta_of("key3", "value3")),
        },
    );

    let meta = isa.collect_meta("bitset3");
    assert_eq!(meta.get("key1"), Some(&"value1".to_string()));
    assert_eq!(meta.get("key2"), Some(&"value2".to_string()));
    assert_eq!(meta.get("key3"), Some(&"value3".to_string()));
}

#[test]
fn test_load_from_document() {
    let xml_data = r#"
        <isa>
            <bitset name="bitset1">
                <meta key1="value1"/>
                <meta key2="value2"/>
            </bitset>
            <bitset name="bitset2" extends="bitset1"/>
            <enum name="enum1">
                <value display="val1" val="0"/>
                <value display="val2" val="1"/>
            </enum>
        </isa>
        "#;

    let doc = roxmltree::Document::parse(xml_data).unwrap();
    let isa = ISA::new(&doc).unwrap();

    let bitset1 = isa.bitsets.get_by_key("bitset1").unwrap();
    assert_eq!(bitset1.name, "bitset1");
    assert_eq!(
        bitset1.meta.as_ref().unwrap().get("key1"),
        Some(&"value1".to_string())
    );
    assert_eq!(
        bitset1.meta.as_ref().unwrap().get("key2"),
        Some(&"value2".to_string())
    );

    let bitset2 = isa.bitsets.get_by_key("bitset2").unwrap();
    assert_eq!(bitset2.name, "bitset2");
    assert_eq!(bitset2.extends, Some("bitset1".to_string()));

    let enum1 = isa.enums.get_by_key("enum1").unwrap();
    assert_eq!(enum1.name, "enum1");
    assert_eq!(enum1.values.len(), 2);
    assert_eq!(enum1.values[0].display, "val1");
    assert_eq!(enum1.values[0].value, "0");
    assert_eq!(enum1.values[1].display, "val2");
    assert_eq!(enum1.values[1].value, "1");
}

#[test]
fn load_keeps_templates_and_document_order() {
    let xml_data = r#"<isa>
        <template name="INSTR_ALU">{NAME}{SAT}</template>
        <bitset name="b"/><bitset name="a"/>
    </isa>"#;
    let doc = roxmltree::Document::parse(xml_data).unwrap();
    let isa = ISA::new(&doc).unwrap();
    let t = isa.templates.get_by_key("INSTR_ALU").unwrap();
    assert_eq!(t.name, "INSTR_ALU");
    assert_eq!(t.display, "{NAME}{SAT}");
    assert_eq!(isa.bitsets.len(), 2);
    assert_eq!(isa.bitsets.get_by_index(0).name, "b");
    assert_eq!(isa.bitsets.get_by_index(1).name, "a");
    assert!(isa.bitsets.get_by_index(0).meta.is_none());
}

#[test]
fn load_fails_on_missing_attribute() {
    let doc = roxmltree::Document::parse("<isa><bitset/></isa>").unwrap();
    assert!(matches!(
        ISA::new(&doc),
        Err(gpumem::isa::IsaError::MissingAttribute)
    ));
    let doc = roxmltree::Document::parse("<isa><enum name='e'><value display='d'/></enum></isa>")
        .unwrap();
    assert!(matches!(
        ISA::new(&doc),
        Err(gpumem::isa::IsaError::MissingAttribute)
    ));
}

#[test]
fn load_fails_on_missing_text() {
    let doc = roxmltree::Document::parse("<isa><template name='t'/></isa>").unwrap();
    assert!(matches!(
        ISA::new(&doc),
        Err(gpumem::isa::IsaError::MissingText)
    ));
}

#[test]
fn indexed_map_later_insert_wins() {
    let mut map = IndexedMap::new();
    map.insert("k".to_string(), 1);
    map.insert("k".to_string(), 2);
    assert_eq!(map.get_by_key("k"), Some(&2));
    assert_eq!(map.len(), 2);
    assert_eq!(*map.get_by_index(0), 1);
}

#[test]
fn collect_meta_child_overrides_parent_and_cycle_ends() {
    let mut isa = ISA::empty();
    isa.bitsets.insert(
        "a".to_string(),
        Bitset {
            name: "a".to_string(),
            extends: Some("b".to_string()),
            meta: Some(meta_of("type", "alu")),
        },
    );
    isa.bitsets.insert(
        "b".to_string(),
        Bitset {
            name: "b".to_string(),
            extends: Some("a".to_string()),
            meta: Some(meta_of("type", "tex")),
        },
    );
    let meta = isa.collect_meta("a");
    assert_eq!(meta.get("type"), Some(&"alu".to_string()));
    let meta = isa.collect_meta("b");
    assert_eq!(meta.get("type"), Some(&"tex".to_string()));
    assert!(isa.collect_meta("nothing").is_empty());
}

#[test]
fn strmap_extend_prefers_right() {
    let mut a = meta_of("k", "1");
    a.insert("j".to_string(), "x".to_string());
    let b = meta_of("k", "2");
    a.extend(&b);
    assert_eq!(a.get("k"), Some(&"2".to_string()));
    assert_eq!(a.get("j"), Some(&"x".to_string()));
    assert_eq!(a.get("z"), None);
    assert!(!a.is_empty());
    assert!(StrMap::new().is_empty());
}

#[test]
fn load_reports_the_first_template_before_any_enum_or_bitset() {
    let doc = roxmltree::Document::parse(
        "<isa><bitset/><enum name='e'><value/></enum><template name='t'/></isa>",
    )
    .unwrap();
    assert!(matches!(
        ISA::new(&doc),
        Err(gpumem::isa::IsaError::MissingText)
    ));
}

#[test]
fn load_combines_meta_and_keeps_the_last_of_a_name() {
    let doc = roxmltree::Document::parse(
        "<isa><bitset name='b'><meta k='1' j='x'/><other k='9'/><meta k='2'/></bitset>\
         <bitset name='b' extends='c'/>\
         <enum name='e'><value display='d' val='v' name='n'/><skip display='s'/></enum></isa>",
    )
    .unwrap();
    let isa = ISA::new(&doc).unwrap();
    assert_eq!(isa.bitsets.len(), 2);
    let first = isa.bitsets.get_by_index(0);
    assert_eq!(first.meta.as_ref().unwrap().get("k"), Some(&"2".to_string()));
    assert_eq!(first.meta.as_ref().unwrap().get("j"), Some(&"x".to_string()));
    assert!(first.extends.is_none());
    let last = isa.bitsets.get_by_key("b").unwrap();
    assert_eq!(last.extends, Some("c".to_string()));
    assert!(last.meta.is_none());
    let e = isa.enums.get_by_key("e").unwrap();
    assert_eq!(e.values.len(), 1);
    assert_eq!(e.values[0].name, Some("n".to_string()));
    assert_eq!(e.values[0].display, "d");
    assert_eq!(e.values[0].value, "v");
}
