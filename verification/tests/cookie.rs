use authkit::cookie::{create_token_cookie, get_token_from_headers};

#[test]
fn single_token_cookie_is_found() {
    assert_eq!(get_token_from_headers(b"token=xyz"), Some(b"xyz".to_vec()));
}

#[test]
fn token_cookie_is_found_among_entries() {
    assert_eq!(get_token_from_headers(b"a=1; token=xyz; b=2"), Some(b"xyz".to_vec()));
}

#[test]
fn whitespace_around_name_and_value_is_trimmed() {
    assert_eq!(get_token_from_headers(b"a=1;  token = xyz ;b=2"), Some(b"xyz".to_vec()));
}

#[test]
fn first_token_cookie_wins() {
    assert_eq!(get_token_from_headers(b"token=first; token=second"), Some(b"first".to_vec()));
}

#[test]
fn empty_token_value_is_found_empty() {
    assert_eq!(get_token_from_headers(b"token="), Some(b"".to_vec()));
}

#[test]
fn header_without_token_cookie_yields_none() {
    assert_eq!(get_token_from_headers(b"a=1; b=2"), None);
    assert_eq!(get_token_from_headers(b""), None);
    assert_eq!(get_token_from_headers(b"token"), None);
    assert_eq!(get_token_from_headers(b"tokens=xyz"), None);
    assert_eq!(get_token_from_headers(b"xtoken=xyz"), None);
}

#[test]
fn token_cookie_with_positive_max_age() {
    let cookie = create_token_cookie(b"abc", 3600);
    assert_eq!(cookie, b"token=abc; Path=/; HttpOnly; SameSite=Lax; Max-Age=3600".to_vec());
}

#[test]
fn clearing_cookie_uses_negative_max_age() {
    let cookie = create_token_cookie(b"", -3600);
    assert_eq!(cookie, b"token=; Path=/; HttpOnly; SameSite=Lax; Max-Age=-3600".to_vec());
}

#[test]
fn zero_max_age_cookie() {
    let cookie = create_token_cookie(b"t", 0);
    assert_eq!(cookie, b"token=t; Path=/; HttpOnly; SameSite=Lax; Max-Age=0".to_vec());
}

#[test]
fn built_cookie_round_trips_through_the_parser() {
    let cookie = create_token_cookie(b"abc.def.ghi", 1800);
    assert_eq!(get_token_from_headers(&cookie), Some(b"abc.def.ghi".to_vec()));
}

#[test]
fn tab_separated_entries_are_read() {
    assert_eq!(get_token_from_headers(b"a=1;\ttoken=xyz"), Some(b"xyz".to_vec()));
}

#[test]
fn header_with_non_visible_ascii_is_rejected_whole() {
    assert_eq!(get_token_from_headers(b"token=xyz\xff"), None);
    assert_eq!(get_token_from_headers("t\u{e9}me=1; token=abc".as_bytes()), None);
    assert_eq!(get_token_from_headers(b"token=abc\x01"), None);
    assert_eq!(get_token_from_headers(b"a=1\x00; token=abc"), None);
}
