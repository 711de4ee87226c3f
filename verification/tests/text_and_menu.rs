use wx_robot::serialize::menu::{
    create_menu_url, delete_menu_url, modify_menu_step, token_url, MenuAction, MenuEvent, MenuStage,
};
use wx_robot::serialize::xml::{DeleteMeuResponse, SetMeuResponse};
use wx_robot::server::response_token;
use wx_robot::text::{char_in, contains_str, decimal_string, split_chars, str_eq};

#[test]
fn decimal_strings() {
    assert_eq!(decimal_string(0), "0");
    assert_eq!(decimal_string(7), "7");
    assert_eq!(decimal_string(1584513594), "1584513594");
    assert_eq!(decimal_string(u64::MAX), u64::MAX.to_string());
}

#[test]
fn splitting() {
    let seps = vec!['=', '&'];
    assert_eq!(split_chars("a=b&c=d", &seps), vec!["a", "b", "c", "d"]);
    assert_eq!(split_chars("", &seps), vec![""]);
    assert_eq!(split_chars("x&", &seps), vec!["x", ""]);
    assert_eq!(split_chars("教材=书", &seps), vec!["教材", "书"]);
    assert!(str_eq("教材", "教材"));
    assert!(!str_eq("ab", "abc"));
    assert!(char_in('&', &seps));
    assert!(!char_in('a', &seps));
    assert!(contains_str(&vec!["x".to_string(), "y".to_string()], "y"));
}

#[test]
fn echostr_is_answered() {
    assert_eq!(response_token("signature=s&echostr=12345&timestamp=1"), "12345");
    assert_eq!(response_token("signature=s&timestamp=1"), "");
    assert_eq!(response_token(""), "");
    // A later pair replaces an earlier one; a lone last piece is ignored.
    assert_eq!(response_token("echostr=1&echostr=2&echostr"), "2");
}

#[test]
fn menu_urls() {
    assert_eq!(
        token_url("APPID", "SECRET"),
        "https://api.weixin.qq.com/cgi-bin/token?grant_type=client_credential&appid=APPID&secret=SECRET"
    );
    assert_eq!(delete_menu_url("TOK"), "https://api.weixin.qq.com/cgi-bin/menu/delete?access_token=TOK");
    assert_eq!(create_menu_url("TOK"), "https://api.weixin.qq.com/cgi-bin/menu/create?access_token=TOK");
    assert!(DeleteMeuResponse { errcode: 0, errmsg: "ok".to_string() }.succeeded());
    assert!(!SetMeuResponse { errcode: 40001, errmsg: "bad".to_string() }.succeeded());
}

#[test]
fn test_modify_meu() {
    let menu = "{\"button\":[]}";
    let (stage, action) = modify_menu_step(
        MenuStage::Start,
        MenuEvent::Begin { app_id: "APPID".to_string(), appsecret: "SECRET".to_string() },
        menu,
    );
    match action {
        MenuAction::Get { url } => assert_eq!(url, token_url("APPID", "SECRET")),
        _ => panic!("expected the token request"),
    }
    let (stage, action) = modify_menu_step(stage, MenuEvent::Token { access_token: "TOK".to_string() }, menu);
    match action {
        MenuAction::Get { url } => assert_eq!(url, delete_menu_url("TOK")),
        _ => panic!("expected the delete request"),
    }
    let (stage, action) = modify_menu_step(stage, MenuEvent::Deleted { succeeded: false }, menu);
    match action {
        MenuAction::Post { url, body } => {
            assert_eq!(url, create_menu_url("TOK"));
            assert_eq!(body, menu);
        }
        _ => panic!("expected the create request"),
    }
    let (stage, action) = modify_menu_step(stage, MenuEvent::Created { succeeded: false }, menu);
    assert!(matches!(stage, MenuStage::Finished));
    assert!(matches!(action, MenuAction::Finish { result: true }));
}
