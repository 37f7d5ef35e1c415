//! Constants for the bot.
//!
//! They are mostly about Mirishita and THE IDOLM@STER and probably no
//! practical use for whoever only care about the Rust side.
use vstd::prelude::*;

verus! {

/// How many cards a page of an idol's card list shows.
pub const PAGE_SIZE: usize = 10;

/// The canonical Japanese name of the idol with internal ID `id` (first and
/// last names without space), for the 52 idols.
pub open spec fn idol_name_spec(id: u32) -> Option<Seq<char>> {
    if id == 1 {
        Some("天海春香"@)
    } else if id == 2 {
        Some("如月千早"@)
    } else if id == 3 {
        Some("星井美希"@)
    } else if id == 4 {
        Some("萩原雪歩"@)
    } else if id == 5 {
        Some("高槻やよい"@)
    } else if id == 6 {
        Some("菊地真"@)
    } else if id == 7 {
        Some("水瀬伊織"@)
    } else if id == 8 {
        Some("四条貴音"@)
    } else if id == 9 {
        Some("秋月律子"@)
    } else if id == 10 {
        Some("三浦あずさ"@)
    } else if id == 11 {
        Some("双海亜美"@)
    } else if id == 12 {
        Some("双海真美"@)
    } else if id == 13 {
        Some("我那覇響"@)
    } else if id == 14 {
        Some("春日未来"@)
    } else if id == 15 {
        Some("最上静香"@)
    } else if id == 16 {
        Some("伊吹翼"@)
    } else if id == 17 {
        Some("田中琴葉"@)
    } else if id == 18 {
        Some("島原エレナ"@)
    } else if id == 19 {
        Some("佐竹美奈子"@)
    } else if id == 20 {
        Some("所恵美"@)
    } else if id == 21 {
        Some("徳川まつり"@)
    } else if id == 22 {
        Some("箱崎星梨花"@)
    } else if id == 23 {
        Some("野々原茜"@)
    } else if id == 24 {
        Some("望月杏奈"@)
    } else if id == 25 {
        Some("ロコ"@)
    } else if id == 26 {
        Some("七尾百合子"@)
    } else if id == 27 {
        Some("高山紗代子"@)
    } else if id == 28 {
        Some("松田亜利沙"@)
    } else if id == 29 {
        Some("高坂海美"@)
    } else if id == 30 {
        Some("中谷育"@)
    } else if id == 31 {
        Some("天空橋朋花"@)
    } else if id == 32 {
        Some("エミリー"@)
    } else if id == 33 {
        Some("北沢志保"@)
    } else if id == 34 {
        Some("舞浜歩"@)
    } else if id == 35 {
        Some("木下ひなた"@)
    } else if id == 36 {
        Some("矢吹可奈"@)
    } else if id == 37 {
        Some("横山奈緒"@)
    } else if id == 38 {
        Some("二階堂千鶴"@)
    } else if id == 39 {
        Some("馬場このみ"@)
    } else if id == 40 {
        Some("大神環"@)
    } else if id == 41 {
        Some("豊川風花"@)
    } else if id == 42 {
        Some("宮尾美也"@)
    } else if id == 43 {
        Some("福田のり子"@)
    } else if id == 44 {
        Some("真壁瑞希"@)
    } else if id == 45 {
        Some("篠宮可憐"@)
    } else if id == 46 {
        Some("百瀬莉緒"@)
    } else if id == 47 {
        Some("永吉昴"@)
    } else if id == 48 {
        Some("北上麗花"@)
    } else if id == 49 {
        Some("周防桃子"@)
    } else if id == 50 {
        Some("ジュリア"@)
    } else if id == 51 {
        Some("白石紬"@)
    } else if id == 52 {
        Some("桜守歌織"@)
    } else {
        None
    }
}

/// The name of the idol with internal ID `id`, if there is one.
pub fn idol_name(id: u32) -> (r: Option<&'static str>)
    ensures
        match r {
            Some(n) => idol_name_spec(id) == Some(n@),
            None => idol_name_spec(id) is None,
        },
{
    match id {
        1 => Some("天海春香"),
        2 => Some("如月千早"),
        3 => Some("星井美希"),
        4 => Some("萩原雪歩"),
        5 => Some("高槻やよい"),
        6 => Some("菊地真"),
        7 => Some("水瀬伊織"),
        8 => Some("四条貴音"),
        9 => Some("秋月律子"),
        10 => Some("三浦あずさ"),
        11 => Some("双海亜美"),
        12 => Some("双海真美"),
        13 => Some("我那覇響"),
        14 => Some("春日未来"),
        15 => Some("最上静香"),
        16 => Some("伊吹翼"),
        17 => Some("田中琴葉"),
        18 => Some("島原エレナ"),
        19 => Some("佐竹美奈子"),
        20 => Some("所恵美"),
        21 => Some("徳川まつり"),
        22 => Some("箱崎星梨花"),
        23 => Some("野々原茜"),
        24 => Some("望月杏奈"),
        25 => Some("ロコ"),
        26 => Some("七尾百合子"),
        27 => Some("高山紗代子"),
        28 => Some("松田亜利沙"),
        29 => Some("高坂海美"),
        30 => Some("中谷育"),
        31 => Some("天空橋朋花"),
        32 => Some("エミリー"),
        33 => Some("北沢志保"),
        34 => Some("舞浜歩"),
        35 => Some("木下ひなた"),
        36 => Some("矢吹可奈"),
        37 => Some("横山奈緒"),
        38 => Some("二階堂千鶴"),
        39 => Some("馬場このみ"),
        40 => Some("大神環"),
        41 => Some("豊川風花"),
        42 => Some("宮尾美也"),
        43 => Some("福田のり子"),
        44 => Some("真壁瑞希"),
        45 => Some("篠宮可憐"),
        46 => Some("百瀬莉緒"),
        47 => Some("永吉昴"),
        48 => Some("北上麗花"),
        49 => Some("周防桃子"),
        50 => Some("ジュリア"),
        51 => Some("白石紬"),
        52 => Some("桜守歌織"),
        _ => None,
    }
}

/// The name of an event type. Check <https://api.matsurihi.me/docs/#mltd-v1-events>.
pub open spec fn event_type_name_spec(typ: u32) -> Option<Seq<char>> {
    if typ == 1 {
        Some("THEATER SHOW TIME☆"@)
    } else if typ == 2 {
        Some("ミリコレ！"@)
    } else if typ == 3 {
        Some("プラチナスターシアター・トラスト"@)
    } else if typ == 4 {
        Some("プラチナスターツアー"@)
    } else if typ == 5 {
        Some("周年記念イベント"@)
    } else if typ == 6 {
        Some("MILLION LIVE WORKING☆"@)
    } else if typ == 7 {
        Some("エイプリルフール"@)
    } else if typ == 9 {
        Some("ミリコレ！（ボックスガシャ）"@)
    } else if typ == 10 {
        Some("ツインステージ"@)
    } else if typ == 11 {
        Some("プラチナスターチューン"@)
    } else if typ == 12 {
        Some("ツインステージ 2"@)
    } else if typ == 13 {
        Some("プラチナスターテール"@)
    } else if typ == 14 {
        Some("THEATER TALK PARTY☆"@)
    } else if typ == 16 {
        Some("プラチナスタートレジャー"@)
    } else {
        None
    }
}

/// The name of an event type, if there is one.
pub fn event_type_name(typ: u32) -> (r: Option<&'static str>)
    ensures
        match r {
            Some(n) => event_type_name_spec(typ) == Some(n@),
            None => event_type_name_spec(typ) is None,
        },
{
    match typ {
        1 => Some("THEATER SHOW TIME☆"),
        2 => Some("ミリコレ！"),
        3 => Some("プラチナスターシアター・トラスト"),
        4 => Some("プラチナスターツアー"),
        5 => Some("周年記念イベント"),
        6 => Some("MILLION LIVE WORKING☆"),
        7 => Some("エイプリルフール"),
        9 => Some("ミリコレ！（ボックスガシャ）"),
        10 => Some("ツインステージ"),
        11 => Some("プラチナスターチューン"),
        12 => Some("ツインステージ 2"),
        13 => Some("プラチナスターテール"),
        14 => Some("THEATER TALK PARTY☆"),
        16 => Some("プラチナスタートレジャー"),
        _ => None,
    }
}

/// The idols are those with IDs 1 to 52.
pub proof fn lemma_idol_ids(id: u32)
    ensures
        idol_name_spec(id) is Some <==> 1 <= id <= 52,
{
}

} // verus!
