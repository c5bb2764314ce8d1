use ser_lib::error::SerializationError;
use ser_lib::property_list::{decode, PlistDictionary, PlistValue};

fn text(s: &str) -> PlistValue {
    PlistValue::String(s.to_string())
}

#[test]
fn dictionary_starts_empty() {
    let d = PlistDictionary::new();
    assert_eq!(d.len(), 0);
    assert_eq!(d.get("a"), None);
}

#[test]
fn dictionary_keeps_the_order_of_first_insertion() {
    let mut d = PlistDictionary::new();
    d.insert("b".to_string(), text("1"));
    d.insert("a".to_string(), text("2"));
    d.insert("b".to_string(), text("3"));
    assert_eq!(d.len(), 2);
    assert_eq!(d.key_at(0), "b");
    assert_eq!(d.value_at(0), &text("3"));
    assert_eq!(d.key_at(1), "a");
    assert_eq!(d.value_at(1), &text("2"));
    assert_eq!(d.get("a"), Some(&text("2")));
    assert_eq!(d.get("b"), Some(&text("3")));
    assert_eq!(d.get("c"), None);
}

#[test]
fn xml_of_each_kind_of_value() {
    let mut inner = PlistDictionary::new();
    inner.insert("n".to_string(), PlistValue::Integer(-3));
    let mut d = PlistDictionary::new();
    d.insert("s".to_string(), text("a & b"));
    d.insert("t".to_string(), PlistValue::Boolean(true));
    d.insert("f".to_string(), PlistValue::Boolean(false));
    d.insert("i".to_string(), PlistValue::Integer(42));
    d.insert("a".to_string(), PlistValue::Array(vec![text("x"), PlistValue::Integer(1)]));
    d.insert("d".to_string(), PlistValue::Dictionary(inner));
    let xml = PlistValue::Dictionary(d).to_xml().unwrap();
    assert_eq!(
        xml,
        "<?xml version=\"1.0\" encoding=\"UTF-8\"?>\n\
         <!DOCTYPE plist PUBLIC \"-//Apple//DTD PLIST 1.0//EN\" \"http://www.apple.com/DTDs/PropertyList-1.0.dtd\">\n\
         <plist version=\"1.0\">\n\
         <dict>\n\
         \t<key>s</key>\n\
         \t<string>a &amp; b</string>\n\
         \t<key>t</key>\n\
         \t<true/>\n\
         \t<key>f</key>\n\
         \t<false/>\n\
         \t<key>i</key>\n\
         \t<integer>42</integer>\n\
         \t<key>a</key>\n\
         \t<array>\n\
         \t\t<string>x</string>\n\
         \t\t<integer>1</integer>\n\
         \t</array>\n\
         \t<key>d</key>\n\
         \t<dict>\n\
         \t\t<key>n</key>\n\
         \t\t<integer>-3</integer>\n\
         \t</dict>\n\
         </dict>\n\
         </plist>"
    );
}

#[test]
fn xml_of_a_text_alone() {
    let xml = text("héllo").to_xml().unwrap();
    assert!(xml.ends_with("<plist version=\"1.0\">\n<string>héllo</string>\n</plist>"));
}

#[test]
fn decode_reads_utf8() {
    assert_eq!(decode("grüß".as_bytes().to_vec()).unwrap(), "grüß");
    assert_eq!(decode(vec![]).unwrap(), "");
}

#[test]
fn decode_refuses_other_bytes() {
    assert_eq!(decode(vec![0x66, 0xff, 0x6f]).unwrap_err(), SerializationError::NotText);
    assert_eq!(decode(vec![0xc3]).unwrap_err(), SerializationError::NotText);
}

#[test]
fn dictionary_agrees_with_the_dictionary_of_plist() {
    let pairs = [("b", "1"), ("a", "2"), ("b", "3"), ("c", "4"), ("a", "5"), ("", "6")];
    let mut own = PlistDictionary::new();
    let mut outside = plist::Dictionary::new();
    for (key, value) in pairs {
        own.insert(key.to_string(), text(value));
        outside.insert(key.to_string(), plist::Value::String(value.to_string()));
    }
    assert_eq!(own.len(), outside.len());
    for (i, (key, value)) in outside.iter().enumerate() {
        assert_eq!(own.key_at(i), key);
        assert_eq!(own.value_at(i), &text(value.as_string().unwrap()));
        assert_eq!(own.get(key), Some(&text(value.as_string().unwrap())));
    }
    let mut written = Vec::new();
    plist::to_writer_xml(&mut written, &plist::Value::Dictionary(outside)).unwrap();
    assert_eq!(
        PlistValue::Dictionary(own).to_xml().unwrap(),
        String::from_utf8(written).unwrap()
    );
}

#[test]
fn xml_is_read_back_by_plist() {
    let mut d = PlistDictionary::new();
    d.insert("Label".to_string(), text("web"));
    d.insert("RunAtLoad".to_string(), PlistValue::Boolean(true));
    d.insert("Nice".to_string(), PlistValue::Integer(-5));
    d.insert("ProgramArguments".to_string(), PlistValue::Array(vec![text("/bin/echo"), text("hi")]));
    let xml = PlistValue::Dictionary(d).to_xml().unwrap();
    let back: plist::Value = plist::from_bytes(xml.as_bytes()).unwrap();
    let back = back.as_dictionary().unwrap();
    let keys: Vec<&String> = back.keys().collect();
    assert_eq!(keys, ["Label", "RunAtLoad", "Nice", "ProgramArguments"]);
    assert_eq!(back.get("Label").and_then(|v| v.as_string()), Some("web"));
    assert_eq!(back.get("RunAtLoad").and_then(|v| v.as_boolean()), Some(true));
    assert_eq!(back.get("Nice").and_then(|v| v.as_signed_integer()), Some(-5));
    let arguments: Vec<&str> = back
        .get("ProgramArguments")
        .and_then(|v| v.as_array())
        .unwrap()
        .iter()
        .filter_map(|v| v.as_string())
        .collect();
    assert_eq!(arguments, ["/bin/echo", "hi"]);
}
