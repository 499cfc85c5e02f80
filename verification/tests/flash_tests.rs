use hyperlinked::flash::{
    decode_cookie_payload, delete_cookie_header_value, find_cookie, set_cookie_header_value, Flash,
    FlashName,
};

#[test]
fn round_trips_flash_cookie_payload() {
    let mut flash = Flash::default();
    flash.insert(FlashName::Notice, "saved");
    flash.insert(FlashName::Alert, "bad");

    let header_value = flash
        .outgoing_cookie_header()
        .expect("cookie should be generated");
    assert!(header_value.contains("notice=saved"));
    assert!(header_value.contains("alert=bad"));
}

#[test]
fn loads_flash_from_cookie_and_consumes_once() {
    let headers = vec!["_hyperlinked_flash=notice=Saved+link.&alert=Oops".to_string()];

    let mut flash = Flash::from_cookie_headers(&headers);
    assert_eq!(
        flash.render_flash(FlashName::Notice).as_deref(),
        Some("Saved link.")
    );
    assert_eq!(flash.render_flash(FlashName::Notice), None);
    assert_eq!(
        flash.render_flash(FlashName::Alert).as_deref(),
        Some("Oops")
    );
}

#[test]
fn consumed_flash_deletes_cookie() {
    let headers = vec!["_hyperlinked_flash=notice=Saved+link.".to_string()];

    let mut flash = Flash::from_cookie_headers(&headers);
    let _ = flash.render_flash(FlashName::Notice);

    let cookie = flash
        .outgoing_cookie_header()
        .expect("set-cookie should be present");
    assert!(cookie.contains("_hyperlinked_flash="));
    assert!(cookie.contains("Max-Age=0"));
}

#[test]
fn invalid_cookie_payload_is_cleared() {
    let headers = vec!["_hyperlinked_flash=%%%invalid%%%".to_string()];

    let flash = Flash::from_cookie_headers(&headers);
    let cookie = flash
        .outgoing_cookie_header()
        .expect("set-cookie should be present for invalid payload");
    assert!(cookie.contains("Max-Age=0"));
}

#[test]
fn unchanged_flash_writes_no_cookie() {
    let headers = vec!["theme=dark; _hyperlinked_flash=notice=Hi".to_string()];
    let flash = Flash::from_cookie_headers(&headers);
    assert!(flash.outgoing_cookie_header().is_none());
    let empty = Flash::from_cookie_headers(&Vec::new());
    assert!(empty.outgoing_cookie_header().is_none());
}

#[test]
fn duplicate_fields_make_the_payload_unreadable() {
    assert!(decode_cookie_payload("notice=a&notice=b").is_none());
    assert_eq!(
        decode_cookie_payload("notice=a&other=x"),
        Some((Some("a".to_string()), None))
    );
    let headers = vec!["_hyperlinked_flash=alert=x&alert=y".to_string()];
    let flash = Flash::from_cookie_headers(&headers);
    assert_eq!(flash.outgoing_cookie_header(), Some(delete_cookie_header_value()));
}

#[test]
fn cookie_lookup_and_headers() {
    let headers = vec![
        "a=1; b=2".to_string(),
        " _hyperlinked_flash = \"notice=x\" ; c=3".to_string(),
    ];
    assert_eq!(find_cookie(&headers, "_hyperlinked_flash").as_deref(), Some("notice=x"));
    assert_eq!(find_cookie(&headers, "b").as_deref(), Some("2"));
    assert_eq!(find_cookie(&headers, "missing"), None);
    assert_eq!(
        set_cookie_header_value("notice=ok"),
        "_hyperlinked_flash=notice=ok; Max-Age=60; Path=/; HttpOnly; SameSite=Lax"
    );
    assert_eq!(
        delete_cookie_header_value(),
        "_hyperlinked_flash=; Max-Age=0; Path=/; HttpOnly; SameSite=Lax"
    );
    let mut flash = Flash::default();
    flash.insert(FlashName::Notice, "a b&c");
    assert_eq!(
        flash.outgoing_cookie_header().as_deref(),
        Some("_hyperlinked_flash=notice=a+b%26c; Max-Age=60; Path=/; HttpOnly; SameSite=Lax")
    );
    let empty_message = vec!["_hyperlinked_flash=notice=".to_string()];
    let mut f = Flash::from_cookie_headers(&empty_message);
    assert_eq!(f.render_flash(FlashName::Notice), None);
}
