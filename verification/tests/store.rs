use wx_robot::serialize::cache::Cache;
use wx_robot::serialize::static_ob::ReplyTable;
use wx_robot::serialize::xml::ConfigIteam;
use wx_robot::serialize::Cache as CommaCache;
use wx_robot::serialize::Xml as FirstXml;

fn item(key: &str, response: &str) -> ConfigIteam {
    ConfigIteam { key: key.to_string(), response: response.to_string() }
}

#[test]
fn cache_knows_the_lines_of_its_store() {
    let mut c = Cache::new("ids.txt", "alice\nbob\n");
    assert_eq!(c.store(), "ids.txt");
    assert!(c.exist(&"alice".to_string()));
    assert!(c.exist(&"bob".to_string()));
    // The empty line after the final line break is known as well.
    assert!(c.exist(&"".to_string()));
    assert_eq!(c.take_pending(), "");
}

#[test]
fn cache_records_new_ids_once() {
    let mut c = Cache::new("ids.txt", "alice\n");
    assert!(!c.exist(&"carol".to_string()));
    assert!(c.exist(&"carol".to_string()));
    assert!(!c.exist(&"dave".to_string()));
    let text = c.take_pending();
    assert_eq!(text, "carol\ndave\n");
    assert_eq!(c.take_pending(), "");
    // Reloading the extended store knows the new ids.
    let mut reloaded = Cache::new("ids.txt", &format!("alice\n{}", text));
    assert!(reloaded.exist(&"alice".to_string()));
    assert!(reloaded.exist(&"carol".to_string()));
    assert!(reloaded.exist(&"dave".to_string()));
    assert_eq!(reloaded.take_pending(), "");
}

#[test]
fn comma_cache_appends_without_recording() {
    let mut c = CommaCache::new("ids.txt", "alice,bob");
    assert!(c.exist(&"bob".to_string()));
    assert!(!c.exist(&"carol".to_string()));
    assert!(!c.exist(&"carol".to_string()));
    assert_eq!(c.contents(), "alice,bob,carol,carol");
    assert_eq!(c.store(), "ids.txt");
    let mut reloaded = CommaCache::new("ids.txt", c.contents());
    assert!(reloaded.exist(&"carol".to_string()));
}

#[test]
fn later_items_replace_earlier_ones() {
    let t = ReplyTable::from_items(&vec![item("a", "1"), item("b", "2"), item("a", "3")]);
    assert_eq!(t.get("a").map(|s| s.as_str()), Some("3"));
    assert_eq!(t.get("b").map(|s| s.as_str()), Some("2"));
    assert_eq!(t.get("c"), None);
}

fn first(msg_type: &str, event: Option<&str>, key: Option<&str>) -> FirstXml {
    FirstXml {
        ToUserName: "acct".to_string(),
        FromUserName: "user".to_string(),
        CreateTime: 1,
        MsgType: msg_type.to_string(),
        Content: None,
        MsgId: None,
        Event: event.map(|s| s.to_string()),
        EventKey: key.map(|s| s.to_string()),
    }
}

#[test]
fn first_form_replies() {
    let op = |x: &str| x.to_string();
    assert_eq!(first("event", Some("subscribe"), None).response("welcome", op), "welcome");
    assert_eq!(first("event", Some("CLICK"), Some("k")).response("welcome", op), "hello");
    assert_eq!(first("event", Some("CLICK"), None).response("welcome", op), "word");
    assert_eq!(first("text", None, None).response("welcome", op), "hello");
    assert!(first("text", None, None).is_common());
    assert!(first("event", Some("CLICK"), None).is_menu_click());
    assert!(first("event", Some("subscribe"), None).is_subscribe());
}
