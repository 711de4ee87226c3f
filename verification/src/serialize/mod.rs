//! Incoming messages, their replies, and the state the replies depend on.
//!
//! This module also holds the first form of the message and of the user
//! cache, whose store file separates the ids by commas and whose reply to
//! a menu click is a fixed word.
pub mod cache;
pub mod menu;
pub mod static_ob;
pub mod xml;

use vstd::prelude::*;
use crate::text::{
    contains_str, lemma_split_append_plain, lemma_split_nonempty, split_chars, split_spec, str_eq,
    views,
};

verus! {

/// The separator between the ids of the comma-separated store file.
pub open spec fn comma() -> Seq<char> {
    seq![',']
}

/// The ids that a comma-separated store file with the given contents
/// holds.
pub open spec fn comma_ids(contents: Seq<char>) -> Set<Seq<char>> {
    split_spec(contents, comma()).to_set()
}

/// The abstract state of the comma-separated [`Cache`].
pub struct CommaCacheView {
    /// The ids read from the store file.
    pub ids: Set<Seq<char>>,
    /// The text of the store file as the cache would write it.
    pub s: Seq<char>,
    /// The path of the store file.
    pub store: Seq<char>,
}

impl CommaCacheView {
    /// The state after asking whether `id` exists: an id that was not read
    /// from the store file is appended to its text, after a comma; the ids
    /// stay those read from the file.
    pub open spec fn after_exist(self, id: Seq<char>) -> CommaCacheView {
        if self.ids.contains(id) {
            self
        } else {
            CommaCacheView { s: self.s + comma() + id, ..self }
        }
    }
}

/// The first form of the user cache: ids separated by commas.
pub struct Cache {
    sub_ids: Vec<String>,
    s: String,
    store: String,
}

impl View for Cache {
    type V = CommaCacheView;

    closed spec fn view(&self) -> CommaCacheView {
        CommaCacheView { ids: views(self.sub_ids@).to_set(), s: self.s@, store: self.store@ }
    }
}

impl Cache {
    /// A cache for the store file at path `store` whose contents are
    /// `contents`.
    pub fn new(store: &str, contents: &str) -> (c: Cache)
        ensures
            c@.ids == comma_ids(contents@),
            c@.s == contents@,
            c@.store == store@,
    {
        let mut seps: Vec<char> = Vec::new();
        seps.push(',');
        assert(seps@ =~= comma());
        let pieces = split_chars(contents, &seps);
        let mut ids: Vec<String> = Vec::new();
        let mut i: usize = 0;
        while i < pieces.len()
            invariant
                i <= pieces.len(),
                views(ids@).to_set() =~= views(pieces@).take(i as int).to_set(),
            decreases pieces.len() - i,
        {
            let ghost before = views(ids@);
            proof {
                assert(views(pieces@).take(i + 1) =~= views(pieces@).take(i as int).push(pieces@[i as int]@));
                views(pieces@).take(i as int).lemma_push_to_set_commute(pieces@[i as int]@);
            }
            if !contains_str(&ids, pieces[i].as_str()) {
                ids.push(pieces[i].clone());
                proof {
                    assert(views(ids@) =~= before.push(pieces@[i as int]@));
                    before.lemma_push_to_set_commute(pieces@[i as int]@);
                }
            }
            i = i + 1;
        }
        proof {
            assert(views(pieces@).take(pieces.len() as int) =~= views(pieces@));
        }
        Cache { sub_ids: ids, s: String::from_str(contents), store: String::from_str(store) }
    }

    /// Whether `id` was read from the store file. Otherwise the id is
    /// appended to the text of the store file (see [`Cache::contents`]);
    /// it is not added to the ids.
    pub fn exist(&mut self, id: &String) -> (known: bool)
        ensures
            known == old(self)@.ids.contains(id@),
            final(self)@ == old(self)@.after_exist(id@),
    {
        if contains_str(&self.sub_ids, id.as_str()) {
            true
        } else {
            self.s.append(",");
            self.s.append(id.as_str());
            proof {
                reveal_strlit(",");
                assert(self.s@ =~= old(self)@.s + comma() + id@);
            }
            false
        }
    }

    /// The text of the store file as the cache would write it.
    pub fn contents(&self) -> (s: &str)
        ensures
            s@ == self@.s,
    {
        self.s.as_str()
    }

    /// The path of the store file.
    pub fn store(&self) -> (s: &str)
        ensures
            s@ == self@.store,
    {
        self.store.as_str()
    }
}

/// Asking again about an id that is not in the store file answers no
/// again, and appends it again.
pub proof fn lemma_comma_exist_repeats(c: CommaCacheView, id: Seq<char>)
    requires
        !c.ids.contains(id),
    ensures
        !c.after_exist(id).ids.contains(id),
        c.after_exist(id).after_exist(id).s == c.s + comma() + id + comma() + id,
{
}

/// Every comma-separated id of the store file is known, the last one
/// included.
pub proof fn lemma_every_comma_id_known(contents: Seq<char>)
    ensures
        forall|i: int| 0 <= i < split_spec(contents, comma()).len() ==> #[trigger] comma_ids(contents).contains(
            split_spec(contents, comma())[i],
        ),
{
    let p = split_spec(contents, comma());
    assert forall|i: int| 0 <= i < p.len() implies #[trigger] comma_ids(contents).contains(p[i]) by {
        assert(p.contains(p[i]));
    }
}

/// Reloading: the text that the cache writes for an id without commas
/// holds the old ids and that id.
pub proof fn lemma_comma_reload(s: Seq<char>, id: Seq<char>)
    requires
        forall|j: int| 0 <= j < id.len() ==> id[j] != ',',
    ensures
        comma_ids(s + comma() + id) == comma_ids(s).insert(id),
{
    assert forall|j: int| 0 <= j < id.len() implies !comma().contains(#[trigger] id[j]) by {
        if comma().contains(id[j]) {
            let k = choose|k: int| 0 <= k < comma().len() && comma()[k] == id[j];
            assert(comma()[k] == ',');
        }
    }
    let t = s + comma();
    assert(t.drop_last() =~= s);
    assert(comma().contains(t.last())) by {
        assert(comma()[0] == t.last());
    }
    lemma_split_nonempty(s, comma());
    let r = split_spec(s, comma());
    assert(split_spec(t, comma()) == r.push(Seq::empty()));
    lemma_split_append_plain(t, id, comma());
    assert(Seq::<char>::empty() + id =~= id);
    assert(split_spec(t + id, comma()) =~= r.push(id));
    r.lemma_push_to_set_commute(id);
}

/// The first form of an incoming message; its fields are named after the
/// platform's XML elements.
#[allow(non_snake_case)]
#[derive(Debug, Clone)]
pub struct Xml {
    pub ToUserName: String,
    pub FromUserName: String,
    pub CreateTime: u64,
    pub MsgType: String,
    pub Content: Option<String>,
    pub MsgId: Option<String>,
    pub Event: Option<String>,
    pub EventKey: Option<String>,
}

/// One entry of a reply configuration: a key and the reply text for it.
#[derive(Debug, Clone)]
pub struct ConfigIteam {
    pub key: String,
    pub response: String,
}

/// The word answered to a menu click with a key, and to other messages.
pub const HELLO: &'static str = "hello";

/// The word answered to a menu click without a key.
pub const WORD: &'static str = "word";

impl Xml {
    /// A follow event.
    pub open spec fn spec_is_subscribe(&self) -> bool {
        &&& self.MsgType@ == "event"@
        &&& self.Event matches Some(e) && e@ == "subscribe"@
    }

    /// A plain text message.
    pub open spec fn spec_is_common(&self) -> bool {
        self.MsgType@ == "text"@
    }

    /// A click on a menu entry.
    pub open spec fn spec_is_menu_click(&self) -> bool {
        &&& self.MsgType@ == "event"@
        &&& self.Event matches Some(e) && e@ == "CLICK"@
    }

    /// Whether this is a follow event.
    pub fn is_subscribe(&self) -> (b: bool)
        ensures
            b == self.spec_is_subscribe(),
    {
        if !str_eq(self.MsgType.as_str(), "event") {
            return false;
        }
        match &self.Event {
            Some(v) => str_eq(v.as_str(), "subscribe"),
            None => false,
        }
    }

    /// Whether this is a plain text message.
    pub fn is_common(&self) -> (b: bool)
        ensures
            b == self.spec_is_common(),
    {
        str_eq(self.MsgType.as_str(), "text")
    }

    /// Whether this is a click on a menu entry.
    pub fn is_menu_click(&self) -> (b: bool)
        ensures
            b == self.spec_is_menu_click(),
    {
        if !str_eq(self.MsgType.as_str(), "event") {
            return false;
        }
        match &self.Event {
            Some(v) => str_eq(v.as_str(), "CLICK"),
            None => false,
        }
    }

    /// The reply: the greeting for a follow event; for a menu click
    /// `hello` when it has a key and `word` when not; `hello` otherwise.
    pub open spec fn spec_reply(&self, greeting: Seq<char>) -> Seq<char> {
        if self.spec_is_subscribe() {
            greeting
        } else if self.spec_is_menu_click() {
            if self.EventKey is Some {
                HELLO@
            } else {
                WORD@
            }
        } else {
            HELLO@
        }
    }

    /// Hands the reply (with greeting `subscribe_res`) to `op`, returning
    /// what `op` returns.
    pub fn response<T, F: Fn(&str) -> T>(&self, subscribe_res: &str, op: F) -> (r: T)
        requires
            forall|s: &str| op.requires((s,)),
        ensures
            exists|s: &str| s@ == self.spec_reply(subscribe_res@) && #[trigger] op.ensures((s,), r),
    {
        if self.is_subscribe() {
            op(subscribe_res)
        } else if self.is_menu_click() {
            match &self.EventKey {
                Some(_) => op(HELLO),
                None => op(WORD),
            }
        } else {
            op(HELLO)
        }
    }
}

/// The kind of a first-form message is decided by its type and event
/// names alone, and its reply by its kind: the greeting for a follow,
/// `hello` for a menu click with a key, `word` for one without, and
/// `hello` for anything else (an event named neither `subscribe` nor
/// `CLICK` included).
pub proof fn lemma_first_form_reply(x: Xml, greeting: Seq<char>)
    ensures
        x.spec_is_menu_click() <==> (x.MsgType@ == "event"@ && x.Event is Some && x.Event.unwrap()@ == "CLICK"@),
        x.spec_is_subscribe() <==> (x.MsgType@ == "event"@ && x.Event is Some && x.Event.unwrap()@ == "subscribe"@),
        x.spec_is_common() <==> x.MsgType@ == "text"@,
        x.spec_is_subscribe() ==> x.spec_reply(greeting) == greeting,
        x.spec_is_menu_click() && x.EventKey is Some ==> x.spec_reply(greeting) == "hello"@,
        x.spec_is_menu_click() && x.EventKey is None ==> x.spec_reply(greeting) == "word"@,
        !x.spec_is_subscribe() && !x.spec_is_menu_click() ==> x.spec_reply(greeting) == "hello"@,
{
    reveal_strlit("subscribe");
    reveal_strlit("CLICK");
    if x.spec_is_subscribe() && x.spec_is_menu_click() {
        assert("subscribe"@[0] != "CLICK"@[0]);
    }
}

} // verus!
