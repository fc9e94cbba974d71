use ltlive::parser::extract_user_id_from_mention;

#[test]
fn test_extract_user_id() {
    assert_eq!(extract_user_id_from_mention("<@!123>"), Some(123));
    assert_eq!(extract_user_id_from_mention("<@!012345>"), Some(12345));
    assert_eq!(extract_user_id_from_mention("hogehoge"), None);
}

#[test]
fn extract_finds_leftmost_match_anywhere() {
    assert_eq!(extract_user_id_from_mention("say hi to <@!42> today"), Some(42));
    assert_eq!(extract_user_id_from_mention("<@!1> and <@!2>"), Some(1));
    assert_eq!(extract_user_id_from_mention("<@!>"), None);
    assert_eq!(extract_user_id_from_mention("<@123>"), None);
    assert_eq!(extract_user_id_from_mention("<@!99999999999999999999999>"), None);
}
