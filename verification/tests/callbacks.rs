use mirishita_info_bot::callback_types::{encode_callback, BgStatus, CallbackType};
use mirishita_info_bot::cmd::list_characters::IdolCategory;

fn lic(category: IdolCategory, force_new_msg: bool) -> CallbackType {
    CallbackType::ListIdolCategory { category, force_new_msg }
}

fn ic(card_id: u32, with_annotation: bool, with_plus: bool, bg: BgStatus) -> CallbackType {
    CallbackType::IdolCard { card_id, with_annotation, with_plus, bg }
}

#[test]
fn bg_status_codes() {
    assert_eq!(BgStatus::default(), BgStatus::Unset);
    assert_eq!(BgStatus::Unset.code(), 0);
    assert_eq!(BgStatus::No.code(), 1);
    assert_eq!(BgStatus::Yes.code(), 2);
    assert_eq!(BgStatus::from_code(2), Some(BgStatus::Yes));
    assert_eq!(BgStatus::from_code(3), None);
}

#[test]
fn encode_list_idol_category() {
    assert_eq!(encode_callback(&lic(IdolCategory::FairyStars, true)), "{\"LIC\":{\"c\":2,\"f\":true}}");
    assert_eq!(encode_callback(&lic(IdolCategory::NamukoPro, false)), "{\"LIC\":{\"c\":0}}");
}

#[test]
fn encode_list_idol() {
    let cb = CallbackType::ListIdol { idol_id: 14, page_id: 1 };
    assert_eq!(encode_callback(&cb), "{\"LI\":{\"i\":14,\"p\":1}}");
}

#[test]
fn encode_idol_card() {
    assert_eq!(
        encode_callback(&ic(123, true, false, BgStatus::No)),
        "{\"IC\":{\"c\":123,\"a\":true,\"p\":false,\"b\":1}}"
    );
    assert_eq!(
        encode_callback(&ic(7, false, true, BgStatus::Unset)),
        "{\"IC\":{\"c\":7,\"a\":false,\"p\":true,\"b\":0}}"
    );
}

#[test]
fn distinct_callbacks_carry_distinct_data() {
    let all = [
        lic(IdolCategory::NamukoPro, false),
        lic(IdolCategory::NamukoPro, true),
        lic(IdolCategory::AngelStars, true),
        CallbackType::ListIdol { idol_id: 0, page_id: u32::MAX },
        CallbackType::ListIdol { idol_id: 1, page_id: 12 },
        CallbackType::ListIdol { idol_id: 11, page_id: 2 },
        ic(0, false, false, BgStatus::Unset),
        ic(u32::MAX, true, true, BgStatus::Yes),
        ic(1234, false, true, BgStatus::No),
        ic(1234, false, true, BgStatus::Yes),
    ];
    for a in all.iter() {
        for b in all.iter() {
            assert_eq!(encode_callback(a) == encode_callback(b), a == b);
        }
    }
}

#[test]
fn callback_data_fits_in_64_bytes() {
    let longest = ic(u32::MAX, false, false, BgStatus::Yes);
    let s = encode_callback(&longest);
    assert!(s.len() <= 64);
    assert!(s.is_ascii());
    let s = encode_callback(&CallbackType::ListIdol { idol_id: u32::MAX, page_id: u32::MAX });
    assert!(s.len() <= 64);
}

#[test]
fn encoded_callbacks_are_json() {
    let s = encode_callback(&ic(123, true, false, BgStatus::No));
    let v: serde_json::Value = serde_json::from_str(&s).unwrap();
    assert_eq!(v["IC"]["c"], 123);
    assert_eq!(v["IC"]["a"], true);
    assert_eq!(v["IC"]["p"], false);
    assert_eq!(v["IC"]["b"], 1);
    let s = encode_callback(&lic(IdolCategory::PrincessStars, true));
    let v: serde_json::Value = serde_json::from_str(&s).unwrap();
    assert_eq!(v["LIC"]["c"], 1);
    assert_eq!(v["LIC"]["f"], true);
}

fn json(s: &str) -> serde_json::Value {
    serde_json::from_str(s).unwrap()
}

#[test]
fn every_variant_encodes_as_its_json() {
    let cases = [
        (lic(IdolCategory::FairyStars, false), "{ \"LIC\": { \"c\": 2 } }"),
        (lic(IdolCategory::AngelStars, true), "{ \"LIC\": { \"f\": true, \"c\": 3 } }"),
        (CallbackType::ListIdol { idol_id: 52, page_id: 7 }, "{\"LI\": {\"p\": 7, \"i\": 52}}"),
        (ic(9, false, true, BgStatus::Unset), "{\"IC\": {\"b\": 0, \"p\": true, \"a\": false, \"c\": 9}}"),
        (ic(10, true, false, BgStatus::No), "{\"IC\": {\"c\": 10, \"a\": true, \"p\": false, \"b\": 1}}"),
        (ic(u32::MAX, true, true, BgStatus::Yes), "{\"IC\": {\"c\": 4294967295, \"a\": true, \"p\": true, \"b\": 2}}"),
    ];
    for (cb, expected) in cases {
        let s = encode_callback(&cb);
        assert_eq!(json(&s), json(expected), "{}", s);
        assert_eq!(serde_json::to_string(&json(&s)).unwrap().len(), s.len());
    }
}
