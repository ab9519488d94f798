use vnlog::messages::{
    authorization_prompt, check_refresh_token, export_message, needs_vndb_lookup, ordinal,
    spreadsheet_set_message, vn_display_name, vn_message, TokenError, VnName,
};

#[test]
fn ordinals() {
    assert_eq!(ordinal(1), "1st");
    assert_eq!(ordinal(2), "2nd");
    assert_eq!(ordinal(3), "3rd");
    assert_eq!(ordinal(4), "4th");
    assert_eq!(ordinal(11), "11th");
    assert_eq!(ordinal(21), "21th");
    assert_eq!(ordinal(0), "0th");
}

#[test]
fn vndb_names() {
    assert!(needs_vndb_lookup("v17"));
    assert!(!needs_vndb_lookup("Steins;Gate"));
    assert!(!needs_vndb_lookup(""));
    assert_eq!(
        vn_display_name("v17".to_string(), Some("Ever17".to_string())),
        "[Ever17](https://vndb.org/v17)"
    );
    assert_eq!(vn_display_name("v17".to_string(), None), "v17");
    assert_eq!(
        vn_display_name("Steins;Gate".to_string(), Some("ignored".to_string())),
        "Steins;Gate"
    );
}

#[test]
fn reply_to_a_plain_log() {
    assert_eq!(vn_message("42", None, 1000, None, None, false, None), "<@42> logged **1000** chars.");
}

#[test]
fn reply_to_a_full_log() {
    let name = VnName { display: "[Ever17](https://vndb.org/v17)".to_string(), id: "v17".to_string() };
    assert_eq!(
        vn_message(
            "42",
            Some(1673654400),
            12345,
            Some(88),
            Some(name),
            true,
            Some("good route".to_string())
        ),
        "<@42> back-logged (at <t:1673654400:R>) **12345** chars for **1:28** on **[[Ever17](https://vndb.org/v17)](v17)**. *sheets OK*\n> good route"
    );
}

#[test]
fn export_reply() {
    assert_eq!(export_message("a,b\n1,2\n"), "```csv\na,b\n1,2\n```\n");
}

#[test]
fn small_replies() {
    assert_eq!(spreadsheet_set_message("abc"), "Set spreadsheet ID to `abc`.");
    assert_eq!(
        authorization_prompt("https://x.y"),
        "Please go to https://x.y and follow the instructions displayed there."
    );
}

#[test]
fn refresh_tokens() {
    assert_eq!(check_refresh_token(None), Err(TokenError::MissingRefreshToken));
    assert_eq!(check_refresh_token(Some(String::new())), Err(TokenError::EmptyRefreshToken));
    assert_eq!(check_refresh_token(Some("tok".to_string())), Ok("tok".to_string()));
    assert_eq!(TokenError::MissingRefreshToken.message(), "could not get refresh token");
    assert_eq!(TokenError::EmptyRefreshToken.message(), "refresh token was empty");
}
