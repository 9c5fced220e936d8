use logon_watch::decode::parse_event_data;

const EVENT: &str = "<Event><System><TimeCreated SystemTime=\"2024-05-01T12:34:56.789+02:00\"/></System><EventData><Data Name=\"TargetUserName\">alice</Data><Data Name=\"TargetDomainName\">CORP</Data><Data Name=\"IpAddress\">10.0.0.5</Data></EventData></Event>";

#[test]
fn decodes_named_data_fields() {
    let fields = parse_event_data(EVENT);
    assert_eq!(fields.get("TargetUserName").unwrap(), "alice");
    assert_eq!(fields.get("TargetDomainName").unwrap(), "CORP");
    assert_eq!(fields.get("IpAddress").unwrap(), "10.0.0.5");
}

#[test]
fn normalizes_time_to_utc_display_form() {
    // The offset +02:00 must be folded into the clock time.
    let fields = parse_event_data(EVENT);
    assert_eq!(fields.get("TimeCreated").unwrap(), "2024-05-01 10:34:56.789000000 UTC");
}

#[test]
fn time_without_fraction_gets_nine_zero_digits() {
    let xml = "<Event><TimeCreated SystemTime=\"2024-05-01T00:00:07Z\"/></Event>";
    let fields = parse_event_data(xml);
    assert_eq!(fields.get("TimeCreated").unwrap(), "2024-05-01 00:00:07.000000000 UTC");
}

#[test]
fn missing_fields_are_simply_absent() {
    let xml = "<Event><Data Name=\"TargetUserName\">alice</Data></Event>";
    let fields = parse_event_data(xml);
    assert!(fields.get("IpAddress").is_none());
    assert!(fields.get("TimeCreated").is_none());
}

#[test]
fn unparsable_time_attribute_is_omitted() {
    let xml = "<Event><TimeCreated SystemTime=\"half past nine\"/><Data Name=\"IpAddress\">10.0.0.5</Data></Event>";
    let fields = parse_event_data(xml);
    assert!(fields.get("TimeCreated").is_none());
    assert_eq!(fields.get("IpAddress").unwrap(), "10.0.0.5");
}

#[test]
fn time_element_without_attribute_is_omitted() {
    let xml = "<Event><TimeCreated/></Event>";
    let fields = parse_event_data(xml);
    assert!(fields.get("TimeCreated").is_none());
}

#[test]
fn repeated_field_name_keeps_last_value() {
    let xml = "<Event><Data Name=\"X\">first</Data><Data Name=\"X\">second</Data></Event>";
    let fields = parse_event_data(xml);
    assert_eq!(fields.get("X").unwrap(), "second");
}

#[test]
fn text_entities_are_unescaped() {
    let xml = "<Event><Data Name=\"TargetDomainName\">A&amp;B &lt;C&gt;</Data></Event>";
    let fields = parse_event_data(xml);
    assert_eq!(fields.get("TargetDomainName").unwrap(), "A&B <C>");
}

#[test]
fn attribute_entities_are_unescaped() {
    let xml = "<Event><TimeCreated SystemTime=\"2024-05-01T12:34:56.789&#43;02:00\"/></Event>";
    let fields = parse_event_data(xml);
    assert_eq!(fields.get("TimeCreated").unwrap(), "2024-05-01 10:34:56.789000000 UTC");
}

#[test]
fn malformed_markup_truncates_but_keeps_decoded_fields() {
    let xml = "<Event><Data Name=\"A\">v</Data><Data Name=\"B\"";
    let fields = parse_event_data(xml);
    assert_eq!(fields.get("A").unwrap(), "v");
    assert!(fields.get("B").is_none());
}

#[test]
fn other_elements_are_ignored() {
    let xml = "<Event><Noise>text outside any armed name</Noise><Data Name=\"A\">v</Data></Event>";
    let fields = parse_event_data(xml);
    assert_eq!(fields.get("A").unwrap(), "v");
    assert!(fields.get("Noise").is_none());
}
