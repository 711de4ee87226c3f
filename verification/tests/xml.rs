use wx_robot::serialize::cache::Cache;
use wx_robot::serialize::static_ob::Resources;
use wx_robot::serialize::xml::{ConfigIteam, Clock, Xml};

fn item(key: &str, response: &str) -> ConfigIteam {
    ConfigIteam { key: key.to_string(), response: response.to_string() }
}

fn resources() -> Resources {
    Resources::new(
        &vec![item("教材", "https://mp.weixin.qq.com/s/T7ol72aZHHrXRluWXm5srA"), item("^hello$", "hi there")],
        &vec![item("V1001", "menu one")],
        "welcome".to_string(),
        "{\"button\":[]}".to_string(),
    )
    .unwrap()
}

fn clock() -> Clock {
    Clock { now: 1584513600, elapsed: 0 }
}

fn message(to: &str, from: &str, time: u64, msg_type: &str) -> Xml {
    Xml {
        to_user_name: to.to_string(),
        from_user_name: from.to_string(),
        create_time: time,
        msg_type: msg_type.to_string(),
        content: None,
        msg_id: None,
        event: None,
        event_key: None,
    }
}

#[test]
fn test_subscribe() {
    // <ToUserName>gh_5d0bbcfa8ae9</ToUserName> <FromUserName>o2_HDv95IYQmdT0NTRb0SldRGHso</FromUserName>
    // <CreateTime>1584513594</CreateTime> <MsgType>event</MsgType> <Event>subscribe</Event> <EventKey></EventKey>
    let mut xml = message("gh_5d0bbcfa8ae9", "o2_HDv95IYQmdT0NTRb0SldRGHso", 1584513594, "event");
    xml.event = Some("subscribe".to_string());
    xml.event_key = Some("".to_string());
    let res = resources();
    let mut cache = Cache::new("cache.txt", "");
    let s: String = xml.response(&res, &mut cache, clock(), |x| String::from(x));
    println!("{}", s);
    assert_eq!(
        s,
        "<xml>\n                <ToUserName><![CDATA[o2_HDv95IYQmdT0NTRb0SldRGHso]]></ToUserName>\n                <FromUserName><![CDATA[gh_5d0bbcfa8ae9]]></FromUserName>\n                <CreateTime>0</CreateTime>\n                <MsgType><![CDATA[text]]></MsgType>\n               <Content><![CDATA[welcome]]></Content>\n             </xml>"
    );
}

#[test]
fn test_menu() {
    // <Event>CLICK</Event> <EventKey>V1001</EventKey>
    let mut xml = message("gh_5d0bbcfa8ae9", "o2_HDv2b0MWJHmskA6GRFeAkjKiA", 1583245678, "event");
    xml.event = Some("CLICK".to_string());
    xml.event_key = Some("V1001".to_string());
    let res = resources();
    let mut cache = Cache::new("cache.txt", "");
    let s: String = xml.response(&res, &mut cache, clock(), |x| String::from(x));
    println!("{}", s);
    assert_eq!(
        s,
        "<xml>\n                        <ToUserName><![CDATA[o2_HDv2b0MWJHmskA6GRFeAkjKiA]]></ToUserName>\n                        <FromUserName><![CDATA[gh_5d0bbcfa8ae9]]></FromUserName>\n                        <CreateTime>0</CreateTime>\n                        <MsgType><![CDATA[text]]></MsgType>\n                        <Content><![CDATA[menu one]]></Content>\n                  </xml>"
    );
}

#[test]
fn test_keyword() {
    // <MsgType>text</MsgType> <Content>asasasasa</Content> <MsgId>22666629054217964</MsgId>
    let mut xml = message("gh_5d0bbcfa8ae9", "o2_HDv8IxHgKd4_mFo_BLjHjaCqE", 1583245742, "text");
    xml.content = Some("asasasasa".to_string());
    xml.msg_id = Some("22666629054217964".to_string());
    let res = resources();
    let mut cache = Cache::new("cache.txt", "");
    let s: String = xml.response(&res, &mut cache, clock(), |x| String::from(x));
    println!("{}", s);
    assert_eq!(
        s,
        "\n                <xml>\n                    <ToUserName><![CDATA[o2_HDv8IxHgKd4_mFo_BLjHjaCqE]]></ToUserName>\n                    <FromUserName><![CDATA[gh_5d0bbcfa8ae9]]></FromUserName>\n                    <CreateTime>1584513600</CreateTime>\n                    <MsgType><![CDATA[text]]></MsgType>\n                    <Content><![CDATA[需要教材电子版的话，看看咱们链接里的方法，能不能找到呀]]></Content>\n                </xml>\n            "
    );
    // The hint goes to a user once only.
    let again: String = xml.response(&res, &mut cache, clock(), |x| String::from(x));
    assert_eq!(again, "");
    assert_eq!(cache.take_pending(), "o2_HDv8IxHgKd4_mFo_BLjHjaCqE\n");
}

#[test]
fn keyword_match_quotes_the_reply() {
    let mut xml = message("acct", "user", 1, "text");
    xml.content = Some("hello".to_string());
    let res = resources();
    let mut cache = Cache::new("cache.txt", "");
    let s = xml.keyword_res(&res, &mut cache, 7);
    assert_eq!(s, xml.word_msg("hi there", 7));
    // A pattern anchored at both ends does not match a longer text.
    xml.content = Some("hello you".to_string());
    let s = xml.keyword_res(&res, &mut cache, 7);
    assert_eq!(s, xml.word_msg("需要教材电子版的话，看看咱们链接里的方法，能不能找到呀", 7));
}

#[test]
fn keyword_picture_article() {
    let mut xml = message("acct", "user", 1, "text");
    xml.content = Some("我要教材".to_string());
    let res = resources();
    let mut cache = Cache::new("cache.txt", "");
    let s = xml.keyword_res(&res, &mut cache, 123);
    assert_eq!(s, xml.pic_and_word_msg(123));
    assert!(s.contains("<CreateTime>123</CreateTime>"));
    assert!(s.contains("<MsgType><![CDATA[news]]></MsgType>"));
    assert_eq!(cache.take_pending(), "");
}

#[test]
fn keyword_without_content_is_empty() {
    let xml = message("acct", "user", 1, "image");
    let res = resources();
    let mut cache = Cache::new("cache.txt", "");
    assert_eq!(xml.keyword_res(&res, &mut cache, 1), "");
    assert_eq!(cache.take_pending(), "");
}

#[test]
fn menu_click_without_key_is_empty() {
    let mut xml = message("acct", "user", 1, "event");
    xml.event = Some("CLICK".to_string());
    let res = resources();
    assert_eq!(xml.menu_click(&res, 0), "");
}

#[test]
fn kinds_are_exclusive() {
    let mut xml = message("acct", "user", 1, "event");
    xml.event = Some("subscribe".to_string());
    assert!(xml.is_subscribe() && !xml.is_menu_click() && !xml.is_common());
    xml.event = Some("CLICK".to_string());
    assert!(!xml.is_subscribe() && xml.is_menu_click() && !xml.is_common());
    let text = message("acct", "user", 1, "text");
    assert!(!text.is_subscribe() && !text.is_menu_click() && text.is_common());
    let mut odd = message("acct", "user", 1, "text");
    odd.event = Some("subscribe".to_string());
    assert!(!odd.is_subscribe());
}

#[test]
fn word_msg_layout() {
    let xml = message("acct", "user", 1, "text");
    assert_eq!(
        xml.word_msg("hey", 1583245742),
        "\n                <xml>\n                    <ToUserName><![CDATA[user]]></ToUserName>\n                    <FromUserName><![CDATA[acct]]></FromUserName>\n                    <CreateTime>1583245742</CreateTime>\n                    <MsgType><![CDATA[text]]></MsgType>\n                    <Content><![CDATA[hey]]></Content>\n                </xml>\n            "
    );
}

#[test]
fn subscribe_res_layout() {
    let xml = message("acct", "user", 1, "event");
    let res = resources();
    assert_eq!(
        xml.subscribe_res(&res, 5),
        "<xml>\n                <ToUserName><![CDATA[user]]></ToUserName>\n                <FromUserName><![CDATA[acct]]></FromUserName>\n                <CreateTime>5</CreateTime>\n                <MsgType><![CDATA[text]]></MsgType>\n               <Content><![CDATA[welcome]]></Content>\n             </xml>"
    );
}

#[test]
fn invalid_keyword_pattern_is_refused() {
    let res = Resources::new(&vec![item("(", "x")], &vec![], "w".to_string(), "m".to_string());
    assert!(res.is_none());
}

#[test]
fn resources_getters() {
    let res = resources();
    assert_eq!(res.subscribe_res(), "welcome");
    assert_eq!(res.menu(), "{\"button\":[]}");
    assert_eq!(res.menue_res().get("V1001").map(|s| s.as_str()), Some("menu one"));
    assert_eq!(res.find_keyword("say hello").map(|s| s.as_str()), None);
    assert_eq!(res.find_keyword("hello").map(|s| s.as_str()), Some("hi there"));
}

#[test]
fn keyword_reply_takes_the_match() {
    let mut xml = message("acct", "user", 1, "text");
    xml.content = Some("anything".to_string());
    let mut cache = Cache::new("cache.txt", "user\n");
    assert_eq!(xml.keyword_reply(Some("quoted"), &mut cache, 9), xml.word_msg("quoted", 9));
    // A known user gets nothing when nothing matched.
    assert_eq!(xml.keyword_reply(None, &mut cache, 9), "");
    assert_eq!(cache.take_pending(), "");
}
