use rust_confessional::twilio::{
    compliance_keyword, form_field, parse_form_body, twilio_signature, verify_twilio_signature,
    ComplianceKeyword,
};

#[test]
fn matches_twilio_official_signature_test_vector() {
    let fields = vec![
        ("CallSid".to_owned(), "CA1234567890ABCDE".to_owned()),
        ("Caller".to_owned(), "+14158675310".to_owned()),
        ("Digits".to_owned(), "1234".to_owned()),
        ("From".to_owned(), "+14158675310".to_owned()),
        ("To".to_owned(), "+18005551212".to_owned()),
    ];
    let url = "https://example.com/myapp.php?foo=1&bar=2";
    let expected = "L/OH5YylLD5NRKLltdqwSvS0BnU=";

    assert_eq!(twilio_signature("12345", url, &fields), expected);
    assert!(verify_twilio_signature("12345", url, &fields, expected));
    assert!(!verify_twilio_signature(
        "wrong-token",
        url,
        &fields,
        expected
    ));
}

#[test]
fn parses_encoded_values_and_preserves_duplicate_pairs() {
    let fields = parse_form_body(
        b"Body=I+clone+everything%21&MediaUrl=https%3A%2F%2Fexample.test%2Fa&MediaUrl=https%3A%2F%2Fexample.test%2Fb",
    );

    assert_eq!(form_field(&fields, "Body"), Some("I clone everything!"));
    assert_eq!(
        fields,
        vec![
            ("Body".to_owned(), "I clone everything!".to_owned()),
            ("MediaUrl".to_owned(), "https://example.test/a".to_owned()),
            ("MediaUrl".to_owned(), "https://example.test/b".to_owned()),
        ]
    );
}

#[test]
fn signature_is_independent_of_distinct_parameter_input_order() {
    let first = vec![
        ("To".to_owned(), "+18005551212".to_owned()),
        ("Body".to_owned(), "hello".to_owned()),
    ];
    let second = vec![first[1].clone(), first[0].clone()];

    assert_eq!(
        twilio_signature("token", "https://example.test/hook", &first),
        twilio_signature("token", "https://example.test/hook", &second)
    );
}

#[test]
fn recognizes_only_exact_compliance_keywords() {
    assert_eq!(
        compliance_keyword(" stop \n"),
        Some(ComplianceKeyword::Stop)
    );
    assert_eq!(compliance_keyword("UnStop"), Some(ComplianceKeyword::Start));
    assert_eq!(compliance_keyword("info"), Some(ComplianceKeyword::Help));
    assert_eq!(compliance_keyword("help me with Rust"), None);
    assert_eq!(compliance_keyword("unstoppable"), None);
}

#[test]
fn rejects_malformed_base64_signature() {
    assert!(!verify_twilio_signature(
        "token",
        "https://example.test/hook",
        &Vec::new(),
        "not base64"
    ));
}

#[test]
fn fields_of_one_name_are_signed_in_their_order() {
    let ab = vec![
        ("Media".to_owned(), "a".to_owned()),
        ("Media".to_owned(), "b".to_owned()),
    ];
    let ba = vec![ab[1].clone(), ab[0].clone()];
    let url = "https://example.test/hook";
    assert_ne!(twilio_signature("t", url, &ab), twilio_signature("t", url, &ba));
    // What is signed is the concatenation, so one field can stand for two.
    let one = vec![("MediaaMedia".to_owned(), "b".to_owned())];
    assert_eq!(twilio_signature("t", url, &ab), twilio_signature("t", url, &one));
}

#[test]
fn names_are_ordered_by_code_point() {
    let url = "https://example.test/hook";
    let fields = vec![
        ("b".to_owned(), "1".to_owned()),
        ("aé".to_owned(), "2".to_owned()),
        ("a".to_owned(), "3".to_owned()),
        ("Z".to_owned(), "4".to_owned()),
    ];
    let joined = vec![("Z4a3aé2b".to_owned(), "1".to_owned())];
    assert_eq!(twilio_signature("t", url, &fields), twilio_signature("t", url, &joined));
}

#[test]
fn a_signature_may_have_white_space_around_it() {
    let fields = vec![("Body".to_owned(), "hello".to_owned())];
    let url = "https://example.test/hook";
    let signature = twilio_signature("token", url, &fields);
    assert!(verify_twilio_signature("token", url, &fields, &format!(" {signature}\n")));
    assert!(!verify_twilio_signature("token", url, &fields, ""));
    assert!(!verify_twilio_signature("token", url, &[], &signature));
    assert!(!verify_twilio_signature("token", "https://example.test/other", &fields, &signature));
}

#[test]
fn every_compliance_keyword_is_known() {
    for word in ["STOP", "STOPALL", "UNSUBSCRIBE", "CANCEL", "END", "QUIT", "REVOKE", "OPTOUT"] {
        assert_eq!(compliance_keyword(word), Some(ComplianceKeyword::Stop));
    }
    assert_eq!(compliance_keyword("start"), Some(ComplianceKeyword::Start));
    assert_eq!(compliance_keyword("Help"), Some(ComplianceKeyword::Help));
    assert_eq!(compliance_keyword(""), None);
}
