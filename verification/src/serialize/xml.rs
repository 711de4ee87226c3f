//! Incoming messages and the XML replies composed for them.
use vstd::prelude::*;
use crate::serialize::cache::{Cache, CacheView};
use crate::serialize::static_ob::{first_match, lookup, Resources, ResourcesView};
use crate::text::{decimal, push_decimal, str_eq};

verus! {

/// One entry of a reply configuration: a key (a menu key, or a keyword
/// pattern) and the reply text for it.
#[derive(Debug, Clone)]
pub struct ConfigIteam {
    pub key: String,
    pub response: String,
}

/// The answer to a request for an access token.
#[derive(Debug, Clone)]
pub struct TokenResponse {
    pub access_token: String,
    pub expires_in: u32,
}

/// The answer to a request that deletes the menu.
#[derive(Debug, Clone)]
pub struct DeleteMeuResponse {
    pub errcode: u32,
    pub errmsg: String,
}

/// The answer to a request that sets the menu.
#[derive(Debug, Clone)]
pub struct SetMeuResponse {
    pub errcode: u32,
    pub errmsg: String,
}

/// An incoming message.
#[derive(Debug, Clone)]
pub struct Xml {
    /// The account that received the message.
    pub to_user_name: String,
    /// The user that sent the message.
    pub from_user_name: String,
    /// When the message was created.
    pub create_time: u64,
    /// The kind of message (`text`, `event`, ...).
    pub msg_type: String,
    /// The text of a plain message.
    pub content: Option<String>,
    /// The id of a plain message.
    pub msg_id: Option<String>,
    /// The event of an event message (`subscribe`, `CLICK`, ...).
    pub event: Option<String>,
    /// The key of the clicked menu entry.
    pub event_key: Option<String>,
}

// The pieces of the reply layouts, around the slots that the reply fills.
pub const SUBSCRIBE_0: &'static str = "<xml>\n                <ToUserName><![CDATA[";
pub const SUBSCRIBE_1: &'static str = "]]></ToUserName>\n                <FromUserName><![CDATA[";
pub const SUBSCRIBE_2: &'static str = "]]></FromUserName>\n                <CreateTime>";
pub const SUBSCRIBE_3: &'static str = "</CreateTime>\n                <MsgType><![CDATA[text]]></MsgType>\n               <Content><![CDATA[";
pub const SUBSCRIBE_4: &'static str = "]]></Content>\n             </xml>";
pub const MENU_0: &'static str = "<xml>\n                        <ToUserName><![CDATA[";
pub const MENU_1: &'static str = "]]></ToUserName>\n                        <FromUserName><![CDATA[";
pub const MENU_2: &'static str = "]]></FromUserName>\n                        <CreateTime>";
pub const MENU_3: &'static str = "</CreateTime>\n                        <MsgType><![CDATA[text]]></MsgType>\n                        <Content><![CDATA[";
pub const MENU_4: &'static str = "]]></Content>\n                  </xml>";
pub const NEWS_0: &'static str = "\n            <xml>\n                <ToUserName><![CDATA[";
pub const NEWS_1: &'static str = "]]></ToUserName>\n                <FromUserName><![CDATA[";
pub const NEWS_2: &'static str = "]]></FromUserName>\n                <CreateTime>";
pub const NEWS_3: &'static str = "</CreateTime>\n                <MsgType><![CDATA[news]]></MsgType>\n                <ArticleCount>1</ArticleCount>\n                <Articles>\n                    <item>\n                    <Title><![CDATA[（2.12 更新）知乎热门：免费大学教材 PDF 哪里找？]]></Title>\n                    <Description><![CDATA[快开学了，各种资料答案走起~]]></Description>\n                    <PicUrl><![CDATA[http://mmbiz.qpic.cn/mmbiz_jpg/TS8rulAuOdKFq1HV4FkXkWE731UKq922h3Qqt0UpIWyr6rDauyfOwOu9JVPOjzXp3I0vZmLsrrgBuvNcbK0TFg/0?wx_fmt=jpeg]]></PicUrl>\n                    <Url><![CDATA[https://mp.weixin.qq.com/s/J95beHEQHAwQ6U2l8XwfHA]]></Url>\n                    </item>\n                </Articles>\n            </xml>";
pub const WORD_0: &'static str = "\n                <xml>\n                    <ToUserName><![CDATA[";
pub const WORD_1: &'static str = "]]></ToUserName>\n                    <FromUserName><![CDATA[";
pub const WORD_2: &'static str = "]]></FromUserName>\n                    <CreateTime>";
pub const WORD_3: &'static str = "</CreateTime>\n                    <MsgType><![CDATA[text]]></MsgType>\n                    <Content><![CDATA[";
pub const WORD_4: &'static str = "]]></Content>\n                </xml>\n            ";

/// The reply that announces the picture article instead of quoting it.
pub const PICTURE_ARTICLE: &'static str = "https://mp.weixin.qq.com/s/T7ol72aZHHrXRluWXm5srA";

/// The reply to a text that no keyword matches, for a user who has not
/// had it yet.
pub const TEXTBOOK_HINT: &'static str = "需要教材电子版的话，看看咱们链接里的方法，能不能找到呀";

/// The five pieces of a text layout.
pub type Layout = (Seq<char>, Seq<char>, Seq<char>, Seq<char>, Seq<char>);

/// A text reply in layout `p`: receiver, sender, creation time and content
/// fill its four slots.
pub open spec fn fill_text_spec(p: Layout, to: Seq<char>, from: Seq<char>, time: u64, content: Seq<char>) -> Seq<char> {
    p.0 + to + p.1 + from + p.2 + decimal(time as nat) + p.3 + content + p.4
}

/// The layout of the greeting reply.
pub open spec fn subscribe_layout() -> Layout {
    (SUBSCRIBE_0@, SUBSCRIBE_1@, SUBSCRIBE_2@, SUBSCRIBE_3@, SUBSCRIBE_4@)
}

/// The layout of the menu-click reply.
pub open spec fn menu_layout() -> Layout {
    (MENU_0@, MENU_1@, MENU_2@, MENU_3@, MENU_4@)
}

/// The layout of the keyword replies.
pub open spec fn word_layout() -> Layout {
    (WORD_0@, WORD_1@, WORD_2@, WORD_3@, WORD_4@)
}

/// The picture-article reply: receiver, sender and creation time fill its
/// three slots.
pub open spec fn news_spec(to: Seq<char>, from: Seq<char>, time: u64) -> Seq<char> {
    NEWS_0@ + to + NEWS_1@ + from + NEWS_2@ + decimal(time as nat) + NEWS_3@
}

fn fill_text(
    p0: &str,
    p1: &str,
    p2: &str,
    p3: &str,
    p4: &str,
    to: &str,
    from: &str,
    time: u64,
    content: &str,
) -> (s: String)
    ensures
        s@ == fill_text_spec((p0@, p1@, p2@, p3@, p4@), to@, from@, time, content@),
{
    let mut s = String::from_str(p0);
    s.append(to);
    s.append(p1);
    s.append(from);
    s.append(p2);
    push_decimal(&mut s, time);
    s.append(p3);
    s.append(content);
    s.append(p4);
    s
}

/// The two moments a reply is stamped with.
#[derive(Debug, Clone, Copy)]
pub struct Clock {
    /// Seconds since the UNIX epoch, for the keyword replies.
    pub now: u64,
    /// Seconds elapsed since the reply was started, for the greeting and
    /// menu replies.
    pub elapsed: u64,
}

/// The view of an optional string.
pub open spec fn opt_view(o: Option<&str>) -> Option<Seq<char>> {
    match o {
        Some(s) => Some(s@),
        None => None,
    }
}

impl Xml {
    /// A follow event.
    pub open spec fn spec_is_subscribe(&self) -> bool {
        &&& self.msg_type@ == "event"@
        &&& self.event matches Some(e) && e@ == "subscribe"@
    }

    /// A plain text message.
    pub open spec fn spec_is_common(&self) -> bool {
        self.msg_type@ == "text"@
    }

    /// A click on a menu entry.
    pub open spec fn spec_is_menu_click(&self) -> bool {
        &&& self.msg_type@ == "event"@
        &&& self.event matches Some(e) && e@ == "CLICK"@
    }

    /// Whether this is a follow event.
    pub fn is_subscribe(&self) -> (b: bool)
        ensures
            b == self.spec_is_subscribe(),
    {
        if !str_eq(self.msg_type.as_str(), "event") {
            return false;
        }
        match &self.event {
            Some(v) => str_eq(v.as_str(), "subscribe"),
            None => false,
        }
    }

    /// Whether this is a plain text message.
    pub fn is_common(&self) -> (b: bool)
        ensures
            b == self.spec_is_common(),
    {
        str_eq(self.msg_type.as_str(), "text")
    }

    /// Whether this is a click on a menu entry.
    pub fn is_menu_click(&self) -> (b: bool)
        ensures
            b == self.spec_is_menu_click(),
    {
        if !str_eq(self.msg_type.as_str(), "event") {
            return false;
        }
        match &self.event {
            Some(v) => str_eq(v.as_str(), "CLICK"),
            None => false,
        }
    }

    /// The greeting reply: to the sender, from the receiving account.
    pub open spec fn spec_subscribe_res(&self, greeting: Seq<char>, elapsed: u64) -> Seq<char> {
        fill_text_spec(subscribe_layout(), self.from_user_name@, self.to_user_name@, elapsed, greeting)
    }

    /// The greeting reply, stamped with `elapsed`.
    pub fn subscribe_res(&self, res: &Resources, elapsed: u64) -> (s: String)
        ensures
            s@ == self.spec_subscribe_res(res@.subscribe, elapsed),
    {
        fill_text(
            SUBSCRIBE_0,
            SUBSCRIBE_1,
            SUBSCRIBE_2,
            SUBSCRIBE_3,
            SUBSCRIBE_4,
            self.from_user_name.as_str(),
            self.to_user_name.as_str(),
            elapsed,
            res.subscribe_res(),
        )
    }

    /// A menu click can be answered: its key, if any, has a menu reply.
    pub open spec fn menu_click_answerable(&self, menus: Seq<(Seq<char>, Seq<char>)>) -> bool {
        self.event_key matches Some(k) ==> lookup(menus, k@) is Some
    }

    /// The menu-click reply: the menu reply for the clicked key, or
    /// nothing when there is no key.
    pub open spec fn spec_menu_click(&self, menus: Seq<(Seq<char>, Seq<char>)>, elapsed: u64) -> Seq<char> {
        match self.event_key {
            Some(k) => fill_text_spec(
                menu_layout(),
                self.from_user_name@,
                self.to_user_name@,
                elapsed,
                lookup(menus, k@).unwrap(),
            ),
            None => Seq::empty(),
        }
    }

    /// The menu-click reply, stamped with `elapsed`.
    pub fn menu_click(&self, res: &Resources, elapsed: u64) -> (s: String)
        requires
            self.menu_click_answerable(res@.menus),
        ensures
            s@ == self.spec_menu_click(res@.menus, elapsed),
    {
        match &self.event_key {
            Some(key) => {
                match res.menue_res().get(key.as_str()) {
                    Some(msg) => fill_text(
                        MENU_0,
                        MENU_1,
                        MENU_2,
                        MENU_3,
                        MENU_4,
                        self.from_user_name.as_str(),
                        self.to_user_name.as_str(),
                        elapsed,
                        msg.as_str(),
                    ),
                    None => String::new(),
                }
            },
            None => String::new(),
        }
    }

    /// The picture-article reply.
    pub open spec fn spec_pic_and_word_msg(&self, now: u64) -> Seq<char> {
        news_spec(self.from_user_name@, self.to_user_name@, now)
    }

    /// The picture-article reply, stamped with `now`.
    pub fn pic_and_word_msg(&self, now: u64) -> (s: String)
        ensures
            s@ == self.spec_pic_and_word_msg(now),
    {
        let mut s = String::from_str(NEWS_0);
        s.append(self.from_user_name.as_str());
        s.append(NEWS_1);
        s.append(self.to_user_name.as_str());
        s.append(NEWS_2);
        push_decimal(&mut s, now);
        s.append(NEWS_3);
        s
    }

    /// A text reply with content `word`.
    pub open spec fn spec_word_msg(&self, word: Seq<char>, now: u64) -> Seq<char> {
        fill_text_spec(word_layout(), self.from_user_name@, self.to_user_name@, now, word)
    }

    /// A text reply with content `word`, stamped with `now`.
    pub fn word_msg(&self, word: &str, now: u64) -> (s: String)
        ensures
            s@ == self.spec_word_msg(word@, now),
    {
        fill_text(
            WORD_0,
            WORD_1,
            WORD_2,
            WORD_3,
            WORD_4,
            self.from_user_name.as_str(),
            self.to_user_name.as_str(),
            now,
            word,
        )
    }

    /// The reply to a text given the keyword reply that matched it, if
    /// any, and whether the sender is already known: the picture article,
    /// the matched reply, the textbook hint for an unknown sender, or
    /// nothing. A message without text gets nothing.
    pub open spec fn spec_keyword_reply(&self, matched: Option<Seq<char>>, known: bool, now: u64) -> Seq<char> {
        if self.content is None {
            Seq::empty()
        } else {
            match matched {
                Some(r) => if r == PICTURE_ARTICLE@ {
                    self.spec_pic_and_word_msg(now)
                } else {
                    self.spec_word_msg(r, now)
                },
                None => if known {
                    Seq::empty()
                } else {
                    self.spec_word_msg(TEXTBOOK_HINT@, now)
                },
            }
        }
    }

    /// Whether composing the reply asks the cache about the sender: only a
    /// text that no keyword matched does.
    pub open spec fn asks_cache(&self, matched: Option<Seq<char>>) -> bool {
        self.content is Some && matched is None
    }

    /// The reply to a text given the keyword reply `matched` that matched
    /// it; asks `cache` about the sender only when nothing matched.
    pub fn keyword_reply(&self, matched: Option<&str>, cache: &mut Cache, now: u64) -> (s: String)
        ensures
            s@ == self.spec_keyword_reply(opt_view(matched), old(cache)@.ids.contains(self.from_user_name@), now),
            final(cache)@ == if self.asks_cache(opt_view(matched)) {
                old(cache)@.after_exist(self.from_user_name@)
            } else {
                old(cache)@
            },
    {
        if self.content.is_none() {
            return String::new();
        }
        match matched {
            Some(res_content) => {
                if str_eq(res_content, PICTURE_ARTICLE) {
                    self.pic_and_word_msg(now)
                } else {
                    self.word_msg(res_content, now)
                }
            },
            None => {
                if !cache.exist(&self.from_user_name) {
                    self.word_msg(TEXTBOOK_HINT, now)
                } else {
                    String::new()
                }
            },
        }
    }

    /// The keyword reply that matches this message's text, if any.
    pub open spec fn spec_matched(&self, res: ResourcesView) -> Option<Seq<char>> {
        match self.content {
            Some(c) => first_match(res.keywords, c@),
            None => None,
        }
    }

    /// The reply to a text: the first keyword reply whose pattern matches
    /// the text decides it (see [`Xml::keyword_reply`]).
    pub fn keyword_res(&self, res: &Resources, cache: &mut Cache, now: u64) -> (s: String)
        ensures
            s@ == self.spec_keyword_reply(self.spec_matched(res@), old(cache)@.ids.contains(self.from_user_name@), now),
            final(cache)@ == if self.asks_cache(self.spec_matched(res@)) {
                old(cache)@.after_exist(self.from_user_name@)
            } else {
                old(cache)@
            },
    {
        let matched: Option<&str> = match &self.content {
            Some(c) => match res.find_keyword(c.as_str()) {
                Some(r) => Some(r.as_str()),
                None => None,
            },
            None => None,
        };
        self.keyword_reply(matched, cache, now)
    }

    /// A message can be answered: a menu click's key has a menu reply.
    pub open spec fn answerable(&self, res: ResourcesView) -> bool {
        self.spec_is_menu_click() ==> self.menu_click_answerable(res.menus)
    }

    /// The reply to this message: the greeting for a follow event, the
    /// menu reply for a menu click, the keyword reply otherwise.
    pub open spec fn spec_reply(&self, res: ResourcesView, known: bool, clock: Clock) -> Seq<char> {
        if self.spec_is_subscribe() {
            self.spec_subscribe_res(res.subscribe, clock.elapsed)
        } else if self.spec_is_menu_click() {
            self.spec_menu_click(res.menus, clock.elapsed)
        } else {
            self.spec_keyword_reply(self.spec_matched(res), known, clock.now)
        }
    }

    /// The cache after replying to this message.
    pub open spec fn spec_cache_after(&self, res: ResourcesView, c: CacheView) -> CacheView {
        if !self.spec_is_subscribe() && !self.spec_is_menu_click() && self.asks_cache(self.spec_matched(res)) {
            c.after_exist(self.from_user_name@)
        } else {
            c
        }
    }

    /// Composes the reply to this message and hands it to `op`, returning
    /// what `op` returns.
    pub fn response<T, F: Fn(&str) -> T>(&self, res: &Resources, cache: &mut Cache, clock: Clock, op: F) -> (r: T)
        requires
            self.answerable(res@),
            forall|s: &str| op.requires((s,)),
        ensures
            exists|s: &str| s@ == self.spec_reply(res@, old(cache)@.ids.contains(self.from_user_name@), clock) && #[trigger] op.ensures((s,), r),
            final(cache)@ == self.spec_cache_after(res@, old(cache)@),
    {
        let text = if self.is_subscribe() {
            self.subscribe_res(res, clock.elapsed)
        } else if self.is_menu_click() {
            self.menu_click(res, clock.elapsed)
        } else {
            self.keyword_res(res, cache, clock.now)
        };
        let s = text.as_str();
        let r = op(s);
        r
    }
}

/// A message is of at most one kind: a follow event is no menu click, and
/// a text message is neither.
pub proof fn lemma_kinds_exclusive(x: Xml)
    ensures
        !(x.spec_is_subscribe() && x.spec_is_menu_click()),
        x.spec_is_common() ==> !x.spec_is_subscribe() && !x.spec_is_menu_click(),
{
    reveal_strlit("subscribe");
    reveal_strlit("CLICK");
    reveal_strlit("event");
    reveal_strlit("text");
    if x.spec_is_subscribe() && x.spec_is_menu_click() {
        assert("subscribe"@[0] != "CLICK"@[0]);
    }
    if x.spec_is_common() && x.msg_type@ == "event"@ {
        assert("text"@[0] != "event"@[0]);
    }
}

/// The kind of a message is decided by its type and event names alone: a
/// menu click is exactly an `event` message whose event is `CLICK`, a
/// follow exactly one whose event is `subscribe`, a text message exactly a
/// `text` message; an event with any other name (`VIEW`, `unsubscribe`,
/// ...) is of no kind.
pub proof fn lemma_kinds_by_name(x: Xml)
    ensures
        x.spec_is_menu_click() <==> (x.msg_type@ == "event"@ && x.event is Some && x.event.unwrap()@ == "CLICK"@),
        x.spec_is_subscribe() <==> (x.msg_type@ == "event"@ && x.event is Some && x.event.unwrap()@ == "subscribe"@),
        x.spec_is_common() <==> x.msg_type@ == "text"@,
        (x.event is None || (x.event.unwrap()@ != "CLICK"@ && x.event.unwrap()@ != "subscribe"@))
            ==> !x.spec_is_menu_click() && !x.spec_is_subscribe(),
{
}

/// The keyword reply to a text: a matched reply other than the picture
/// article is quoted as a text reply to the sender; the picture article
/// gives the picture-article reply; an unmatched text gives the textbook
/// hint to an unknown sender and nothing to a known one; only an unmatched
/// text asks the cache.
pub proof fn lemma_keyword_reply_cases(x: Xml, matched: Option<Seq<char>>, r: Seq<char>, known: bool, now: u64)
    requires
        x.content is Some,
    ensures
        matched == Some(r) && r != PICTURE_ARTICLE@ ==> x.spec_keyword_reply(matched, known, now)
            == fill_text_spec(word_layout(), x.from_user_name@, x.to_user_name@, now, r),
        matched == Some(PICTURE_ARTICLE@) ==> x.spec_keyword_reply(matched, known, now)
            == news_spec(x.from_user_name@, x.to_user_name@, now),
        matched is None && !known ==> x.spec_keyword_reply(matched, known, now)
            == fill_text_spec(word_layout(), x.from_user_name@, x.to_user_name@, now, TEXTBOOK_HINT@),
        matched is None && known ==> x.spec_keyword_reply(matched, known, now) == Seq::<char>::empty(),
        x.asks_cache(matched) <==> matched is None,
{
}

/// A message without text gets the empty keyword reply and leaves the
/// cache alone.
pub proof fn lemma_keyword_reply_no_content(x: Xml, matched: Option<Seq<char>>, known: bool, now: u64)
    requires
        x.content is None,
    ensures
        x.spec_keyword_reply(matched, known, now) == Seq::<char>::empty(),
        !x.asks_cache(matched),
{
}

/// The reply to a message that is neither a follow nor a menu click is
/// its keyword reply, decided by the first keyword pattern that matches
/// its text: a text matched by a pattern gets that pattern's reply quoted
/// (or the picture article), and the cache is asked only when no pattern
/// matches.
pub proof fn lemma_reply_of_text(x: Xml, res: ResourcesView, c: CacheView, clock: Clock, r: Seq<char>)
    requires
        !x.spec_is_subscribe(),
        !x.spec_is_menu_click(),
    ensures
        x.content is Some && first_match(res.keywords, x.content.unwrap()@) == Some(r) && r != PICTURE_ARTICLE@
            ==> x.spec_reply(res, c.ids.contains(x.from_user_name@), clock)
                == fill_text_spec(word_layout(), x.from_user_name@, x.to_user_name@, clock.now, r),
        x.content is Some && first_match(res.keywords, x.content.unwrap()@) == Some(PICTURE_ARTICLE@)
            ==> x.spec_reply(res, c.ids.contains(x.from_user_name@), clock)
                == news_spec(x.from_user_name@, x.to_user_name@, clock.now),
        x.content is Some && first_match(res.keywords, x.content.unwrap()@) is None
            ==> x.spec_reply(res, c.ids.contains(x.from_user_name@), clock) == (if c.ids.contains(x.from_user_name@) {
                Seq::<char>::empty()
            } else {
                fill_text_spec(word_layout(), x.from_user_name@, x.to_user_name@, clock.now, TEXTBOOK_HINT@)
            }) && x.spec_cache_after(res, c) == c.after_exist(x.from_user_name@),
        x.content is Some && first_match(res.keywords, x.content.unwrap()@) is Some ==> x.spec_cache_after(res, c) == c,
        x.content is None ==> x.spec_reply(res, c.ids.contains(x.from_user_name@), clock) == Seq::<char>::empty()
            && x.spec_cache_after(res, c) == c,
{
}

/// The reply to a follow is the greeting, and to a menu click the menu
/// reply for its key; neither asks the cache.
pub proof fn lemma_reply_of_event(x: Xml, res: ResourcesView, c: CacheView, clock: Clock, m: Seq<char>)
    ensures
        x.spec_is_subscribe() ==> x.spec_reply(res, c.ids.contains(x.from_user_name@), clock)
            == fill_text_spec(subscribe_layout(), x.from_user_name@, x.to_user_name@, clock.elapsed, res.subscribe)
            && x.spec_cache_after(res, c) == c,
        x.spec_is_menu_click() && x.event_key is Some && lookup(res.menus, x.event_key.unwrap()@) == Some(m)
            ==> x.spec_reply(res, c.ids.contains(x.from_user_name@), clock)
                == fill_text_spec(menu_layout(), x.from_user_name@, x.to_user_name@, clock.elapsed, m)
                && x.spec_cache_after(res, c) == c,
        x.spec_is_menu_click() && x.event_key is None ==> x.spec_reply(res, c.ids.contains(x.from_user_name@), clock)
            == Seq::<char>::empty(),
{
    lemma_kinds_exclusive(x);
}

/// The textbook hint goes to each user at most once: once a text from a
/// user matched no keyword, a later unmatched text from the same user is
/// answered with nothing.
pub proof fn lemma_hint_once(x: Xml, y: Xml, c: CacheView, m: Option<Seq<char>>, n: Option<Seq<char>>, now: u64)
    requires
        x.from_user_name@ == y.from_user_name@,
        x.asks_cache(m),
        y.asks_cache(n),
    ensures
        y.spec_keyword_reply(n, c.after_exist(x.from_user_name@).ids.contains(y.from_user_name@), now)
            == Seq::<char>::empty(),
{
}

} // verus!
