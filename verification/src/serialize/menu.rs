//! Rebuilding the account's menu: the requests it takes, and the order in
//! which they are made (token, delete, create).
use vstd::prelude::*;
use crate::serialize::xml::{DeleteMeuResponse, SetMeuResponse};

verus! {

/// The start of the token request, before the application id.
pub const TOKEN_URL: &'static str = "https://api.weixin.qq.com/cgi-bin/token?grant_type=client_credential&appid=";

/// Between the application id and the secret in the token request.
pub const TOKEN_URL_SECRET: &'static str = "&secret=";

/// The menu-delete request, before the access token.
pub const DELETE_MENU_URL: &'static str = "https://api.weixin.qq.com/cgi-bin/menu/delete?access_token=";

/// The menu-create request, before the access token.
pub const CREATE_MENU_URL: &'static str = "https://api.weixin.qq.com/cgi-bin/menu/create?access_token=";

/// The URL that requests an access token for an application.
pub open spec fn spec_token_url(app_id: Seq<char>, appsecret: Seq<char>) -> Seq<char> {
    TOKEN_URL@ + app_id + TOKEN_URL_SECRET@ + appsecret
}

/// The URL that deletes the menu.
pub open spec fn spec_delete_menu_url(token: Seq<char>) -> Seq<char> {
    DELETE_MENU_URL@ + token
}

/// The URL that creates the menu.
pub open spec fn spec_create_menu_url(token: Seq<char>) -> Seq<char> {
    CREATE_MENU_URL@ + token
}

/// The URL that requests an access token for an application.
pub fn token_url(app_id: &str, appsecret: &str) -> (s: String)
    ensures
        s@ == spec_token_url(app_id@, appsecret@),
{
    let mut s = String::from_str(TOKEN_URL);
    s.append(app_id);
    s.append(TOKEN_URL_SECRET);
    s.append(appsecret);
    s
}

/// The URL that deletes the menu.
pub fn delete_menu_url(token: &str) -> (s: String)
    ensures
        s@ == spec_delete_menu_url(token@),
{
    let mut s = String::from_str(DELETE_MENU_URL);
    s.append(token);
    s
}

/// The URL that creates the menu.
pub fn create_menu_url(token: &str) -> (s: String)
    ensures
        s@ == spec_create_menu_url(token@),
{
    let mut s = String::from_str(CREATE_MENU_URL);
    s.append(token);
    s
}

impl DeleteMeuResponse {
    /// Whether the menu was deleted: the error code is zero.
    pub fn succeeded(&self) -> (b: bool)
        ensures
            b == (self.errcode == 0),
    {
        self.errcode == 0
    }
}

impl SetMeuResponse {
    /// Whether the menu was created: the error code is zero.
    pub fn succeeded(&self) -> (b: bool)
        ensures
            b == (self.errcode == 0),
    {
        self.errcode == 0
    }
}

/// How far a menu rebuild has come.
pub enum MenuStage {
    /// Nothing asked yet.
    Start,
    /// The access token was asked for.
    AwaitingToken,
    /// The menu was asked to be deleted, with `token`.
    AwaitingDelete { token: String },
    /// The menu was asked to be created.
    AwaitingCreate,
    /// Done.
    Finished,
}

/// What the outside world answered.
pub enum MenuEvent {
    /// Start the rebuild for the application with these credentials.
    Begin { app_id: String, appsecret: String },
    /// The access token arrived.
    Token { access_token: String },
    /// The delete request was answered.
    Deleted { succeeded: bool },
    /// The create request was answered.
    Created { succeeded: bool },
}

/// What to do next.
pub enum MenuAction {
    /// Send a GET request to `url`.
    Get { url: String },
    /// Send a POST request with `body` to `url`.
    Post { url: String, body: String },
    /// The rebuild is over, with this result.
    Finish { result: bool },
}

/// An action by its views.
pub enum MenuRequest {
    Get(Seq<char>),
    Post(Seq<char>, Seq<char>),
    Finish(bool),
}

impl View for MenuAction {
    type V = MenuRequest;

    open spec fn view(&self) -> MenuRequest {
        match self {
            MenuAction::Get { url } => MenuRequest::Get(url@),
            MenuAction::Post { url, body } => MenuRequest::Post(url@, body@),
            MenuAction::Finish { result } => MenuRequest::Finish(*result),
        }
    }
}

/// The event that a stage waits for.
pub open spec fn awaits(stage: MenuStage, event: MenuEvent) -> bool {
    match stage {
        MenuStage::Start => event is Begin,
        MenuStage::AwaitingToken => event is Token,
        MenuStage::AwaitingDelete { .. } => event is Deleted,
        MenuStage::AwaitingCreate => event is Created,
        MenuStage::Finished => false,
    }
}

/// The next stage and action of a menu rebuild: ask for a token, delete
/// the menu with it, create the menu `menu` with it, and finish with
/// `true` whatever the delete and create requests answered.
pub fn modify_menu_step(stage: MenuStage, event: MenuEvent, menu: &str) -> (r: (MenuStage, MenuAction))
    requires
        awaits(stage, event),
    ensures
        match (stage, event) {
            (MenuStage::Start, MenuEvent::Begin { app_id, appsecret }) => r.0 is AwaitingToken
                && r.1@ == MenuRequest::Get(spec_token_url(app_id@, appsecret@)),
            (MenuStage::AwaitingToken, MenuEvent::Token { access_token }) => (r.0 matches MenuStage::AwaitingDelete { token } && token@ == access_token@)
                && r.1@ == MenuRequest::Get(spec_delete_menu_url(access_token@)),
            (MenuStage::AwaitingDelete { token }, MenuEvent::Deleted { .. }) => r.0 is AwaitingCreate
                && r.1@ == MenuRequest::Post(spec_create_menu_url(token@), menu@),
            (MenuStage::AwaitingCreate, MenuEvent::Created { .. }) => r.0 is Finished
                && r.1@ == MenuRequest::Finish(true),
            _ => false,
        },
{
    match (stage, event) {
        (MenuStage::Start, MenuEvent::Begin { app_id, appsecret }) => {
            let url = token_url(app_id.as_str(), appsecret.as_str());
            (MenuStage::AwaitingToken, MenuAction::Get { url })
        },
        (MenuStage::AwaitingToken, MenuEvent::Token { access_token }) => {
            let url = delete_menu_url(access_token.as_str());
            (MenuStage::AwaitingDelete { token: access_token }, MenuAction::Get { url })
        },
        (MenuStage::AwaitingDelete { token }, MenuEvent::Deleted { .. }) => {
            let url = create_menu_url(token.as_str());
            (MenuStage::AwaitingCreate, MenuAction::Post { url, body: String::from_str(menu) })
        },
        (_, _) => (MenuStage::Finished, MenuAction::Finish { result: true }),
    }
}

} // verus!
