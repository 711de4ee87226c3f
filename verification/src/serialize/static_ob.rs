//! The reply configuration that every reply is composed from: keyword
//! replies, menu replies, the greeting, and the menu definition.
use vstd::prelude::*;
use crate::serialize::xml::ConfigIteam;
use crate::text::str_eq;

verus! {

/// A `(key, reply)` pair by its views.
pub open spec fn item_view(i: ConfigIteam) -> (Seq<char>, Seq<char>) {
    (i.key@, i.response@)
}

/// The `(key, reply)` pairs of some configuration items.
pub open spec fn items_view(items: Seq<ConfigIteam>) -> Seq<(Seq<char>, Seq<char>)> {
    items.map_values(|i: ConfigIteam| item_view(i))
}

/// Whether some entry has key `k`.
pub open spec fn has_key(e: Seq<(Seq<char>, Seq<char>)>, k: Seq<char>) -> bool {
    exists|j: int| 0 <= j < e.len() && (#[trigger] e[j]).0 == k
}

/// No two entries share a key.
pub open spec fn distinct_keys(e: Seq<(Seq<char>, Seq<char>)>) -> bool {
    forall|i: int, j: int| 0 <= i < e.len() && 0 <= j < e.len() && i != j ==> e[i].0 != e[j].0
}

/// The index of the entry with key `k`, where there is one.
pub open spec fn key_index(e: Seq<(Seq<char>, Seq<char>)>, k: Seq<char>) -> int {
    choose|j: int| 0 <= j < e.len() && (#[trigger] e[j]).0 == k
}

/// Inserting a pair into a table: an entry with the same key takes the
/// new reply in its place, otherwise the pair is added at the end.
pub open spec fn table_insert(e: Seq<(Seq<char>, Seq<char>)>, k: Seq<char>, v: Seq<char>) -> Seq<(Seq<char>, Seq<char>)> {
    if has_key(e, k) {
        e.update(key_index(e, k), (k, v))
    } else {
        e.push((k, v))
    }
}

/// The table built from some pairs, inserted in order.
pub open spec fn table_of(items: Seq<(Seq<char>, Seq<char>)>) -> Seq<(Seq<char>, Seq<char>)>
    decreases items.len(),
{
    if items.len() == 0 {
        Seq::empty()
    } else {
        table_insert(table_of(items.drop_last()), items.last().0, items.last().1)
    }
}

/// The reply that a table holds for key `k`.
pub open spec fn lookup(e: Seq<(Seq<char>, Seq<char>)>, k: Seq<char>) -> Option<Seq<char>> {
    if has_key(e, k) {
        Some(e[key_index(e, k)].1)
    } else {
        None
    }
}

/// The reply of the last pair with key `k`.
pub open spec fn last_value(items: Seq<(Seq<char>, Seq<char>)>, k: Seq<char>) -> Option<Seq<char>>
    decreases items.len(),
{
    if items.len() == 0 {
        None
    } else if items.last().0 == k {
        Some(items.last().1)
    } else {
        last_value(items.drop_last(), k)
    }
}

/// Inserting keeps keys distinct.
proof fn lemma_insert_distinct(e: Seq<(Seq<char>, Seq<char>)>, k: Seq<char>, v: Seq<char>)
    requires
        distinct_keys(e),
    ensures
        distinct_keys(table_insert(e, k, v)),
        forall|j: int| 0 <= j < e.len() ==> (#[trigger] table_insert(e, k, v)[j]).0 == e[j].0,
        table_insert(e, k, v).len() >= e.len(),
{
    if has_key(e, k) {
        let j = key_index(e, k);
        assert(e[j].0 == k);
    }
}

/// Looking up in a table after inserting.
proof fn lemma_insert_lookup(e: Seq<(Seq<char>, Seq<char>)>, k: Seq<char>, v: Seq<char>, q: Seq<char>)
    requires
        distinct_keys(e),
    ensures
        lookup(table_insert(e, k, v), q) == if q == k { Some(v) } else { lookup(e, q) },
{
    let n = table_insert(e, k, v);
    lemma_insert_distinct(e, k, v);
    if has_key(e, k) {
        let j = key_index(e, k);
        assert(e[j].0 == k);
        assert(n[j].0 == k);
        if q == k {
            assert(has_key(n, q));
            let i = key_index(n, q);
            assert(i == j);
        } else {
            if has_key(e, q) {
                let i = key_index(e, q);
                assert(n[i] == e[i]);
                assert(has_key(n, q));
                let i2 = key_index(n, q);
                assert(i2 == i);
            } else {
                if has_key(n, q) {
                    let i2 = key_index(n, q);
                    assert(n[i2] == e[i2]);
                }
            }
        }
    } else {
        assert(n[e.len() as int] == (k, v));
        if q == k {
            assert(has_key(n, q));
            let i = key_index(n, q);
            if i < e.len() {
                assert(n[i] == e[i]);
            }
        } else {
            if has_key(e, q) {
                let i = key_index(e, q);
                assert(n[i] == e[i]);
                assert(has_key(n, q));
                let i2 = key_index(n, q);
                assert(i2 == i);
            } else {
                if has_key(n, q) {
                    let i2 = key_index(n, q);
                    assert(n[i2] == e[i2]);
                }
            }
        }
    }
}

/// Tables built from pairs have distinct keys.
pub proof fn lemma_table_distinct(items: Seq<(Seq<char>, Seq<char>)>)
    ensures
        distinct_keys(table_of(items)),
    decreases items.len(),
{
    if items.len() > 0 {
        lemma_table_distinct(items.drop_last());
        lemma_insert_distinct(table_of(items.drop_last()), items.last().0, items.last().1);
    }
}

/// A later item replaces an earlier one: the table built from some pairs
/// answers a key with the reply of the last pair with that key.
pub proof fn lemma_table_lookup(items: Seq<(Seq<char>, Seq<char>)>, k: Seq<char>)
    ensures
        lookup(table_of(items), k) == last_value(items, k),
    decreases items.len(),
{
    if items.len() > 0 {
        lemma_table_lookup(items.drop_last(), k);
        lemma_table_distinct(items.drop_last());
        lemma_insert_lookup(table_of(items.drop_last()), items.last().0, items.last().1, k);
    }
}

/// The position of the entry with key `key`, where there is one.
fn find_key(entries: &Vec<ConfigIteam>, key: &str) -> (r: Option<usize>)
    requires
        distinct_keys(items_view(entries@)),
    ensures
        match r {
            Some(j) => j < entries.len() && has_key(items_view(entries@), key@) && key_index(
                items_view(entries@),
                key@,
            ) == j,
            None => !has_key(items_view(entries@), key@),
        },
{
    let ghost e = items_view(entries@);
    let mut j: usize = 0;
    while j < entries.len()
        invariant
            j <= entries.len(),
            e == items_view(entries@),
            distinct_keys(e),
            forall|l: int| 0 <= l < j ==> e[l].0 != key@,
        decreases entries.len() - j,
    {
        if str_eq(entries[j].key.as_str(), key) {
            proof {
                assert(e[j as int].0 == key@);
                assert(has_key(e, key@));
                let c = key_index(e, key@);
                assert(c == j);
            }
            return Some(j);
        }
        j = j + 1;
    }
    proof {
        if has_key(e, key@) {
            let c = key_index(e, key@);
            assert(e[c].0 == key@);
        }
    }
    None
}

/// A table of replies by key, built by inserting configuration items in
/// order (a later item with the same key replaces an earlier one).
pub struct ReplyTable {
    entries: Vec<ConfigIteam>,
}

impl View for ReplyTable {
    type V = Seq<(Seq<char>, Seq<char>)>;

    closed spec fn view(&self) -> Seq<(Seq<char>, Seq<char>)> {
        items_view(self.entries@)
    }
}

impl ReplyTable {
    #[verifier::type_invariant]
    closed spec fn keys_distinct(&self) -> bool {
        distinct_keys(items_view(self.entries@))
    }

    /// The table that inserting `items` in order builds.
    pub fn from_items(items: &Vec<ConfigIteam>) -> (t: ReplyTable)
        ensures
            t@ == table_of(items_view(items@)),
    {
        let mut entries: Vec<ConfigIteam> = Vec::new();
        let mut i: usize = 0;
        while i < items.len()
            invariant
                i <= items.len(),
                items_view(entries@) == table_of(items_view(items@).take(i as int)),
            decreases items.len() - i,
        {
            proof {
                lemma_table_distinct(items_view(items@).take(i as int));
                assert(items_view(items@).take(i + 1).drop_last() =~= items_view(items@).take(i as int));
            }
            let ghost e0 = items_view(entries@);
            let item = &items[i];
            let copy = ConfigIteam { key: item.key.clone(), response: item.response.clone() };
            match find_key(&entries, item.key.as_str()) {
                Some(j) => {
                    entries.set(j, copy);
                    proof {
                        assert(items_view(entries@) =~= table_insert(e0, item.key@, item.response@));
                    }
                },
                None => {
                    entries.push(copy);
                    proof {
                        assert(items_view(entries@) =~= table_insert(e0, item.key@, item.response@));
                    }
                },
            }
            i = i + 1;
        }
        proof {
            assert(items_view(items@).take(items.len() as int) =~= items_view(items@));
            lemma_table_distinct(items_view(items@));
        }
        ReplyTable { entries }
    }

    /// The reply for `key`.
    pub fn get(&self, key: &str) -> (r: Option<&String>)
        ensures
            match r {
                Some(v) => lookup(self@, key@) == Some(v@),
                None => lookup(self@, key@) is None,
            },
    {
        proof {
            use_type_invariant(self);
        }
        match find_key(&self.entries, key) {
            Some(j) => Some(&self.entries[j].response),
            None => None,
        }
    }
}

/// Whether `regex::Regex::new` accepts `pattern`.
pub uninterp spec fn regex_valid(pattern: Seq<char>) -> bool;

/// Whether the regex compiled from a valid `pattern` matches somewhere in
/// `text` (`regex::Regex::is_match`).
pub uninterp spec fn regex_is_match(pattern: Seq<char>, text: Seq<char>) -> bool;

/// Calls `regex::Regex::new(pattern)` and tells whether it succeeded;
/// claims only that the answer is a function of the pattern, named
/// `regex_valid`.
#[verifier::external_body]
fn pattern_compiles(pattern: &str) -> (b: bool)
    ensures
        b == regex_valid(pattern@),
{
    regex::Regex::new(pattern).is_ok()
}

/// Compiles `pattern` with `regex::Regex::new` and calls
/// `regex::Regex::is_match` on `text`; claims only that the answer is a
/// function of the pattern and the text, named `regex_is_match`. The
/// pattern must be one that compiles, so the error arm is never taken.
#[verifier::external_body]
fn pattern_matches(pattern: &str, text: &str) -> (b: bool)
    requires
        regex_valid(pattern@),
    ensures
        b == regex_is_match(pattern@, text@),
{
    match regex::Regex::new(pattern) {
        Ok(re) => re.is_match(text),
        Err(_) => false,
    }
}

/// The reply of the first entry whose pattern matches `text`.
pub open spec fn first_match(e: Seq<(Seq<char>, Seq<char>)>, text: Seq<char>) -> Option<Seq<char>>
    decreases e.len(),
{
    if e.len() == 0 {
        None
    } else if regex_is_match(e[0].0, text) {
        Some(e[0].1)
    } else {
        first_match(e.drop_first(), text)
    }
}

/// The keyword reply is that of the first pattern that matches: `Some(r)`
/// exactly when some entry matches the text, none before it does, and its
/// reply is `r`; `None` exactly when no entry matches.
pub proof fn lemma_first_match(e: Seq<(Seq<char>, Seq<char>)>, text: Seq<char>)
    ensures
        first_match(e, text) is None <==> forall|i: int| 0 <= i < e.len() ==> !regex_is_match(#[trigger] e[i].0, text),
        first_match(e, text) is Some ==> exists|i: int|
            0 <= i < e.len() && regex_is_match(#[trigger] e[i].0, text) && first_match(e, text) == Some(e[i].1)
                && forall|j: int| 0 <= j < i ==> !regex_is_match(#[trigger] e[j].0, text),
    decreases e.len(),
{
    if e.len() > 0 {
        let rest = e.drop_first();
        lemma_first_match(rest, text);
        if regex_is_match(e[0].0, text) {
            assert(0 <= 0 < e.len() && regex_is_match(e[0].0, text) && first_match(e, text) == Some(e[0].1));
        } else {
            assert forall|i: int| 0 <= i < e.len() && i > 0 implies #[trigger] e[i] == rest[i - 1] by {}
            if first_match(rest, text) is None {
                assert forall|i: int| 0 <= i < e.len() implies !regex_is_match(#[trigger] e[i].0, text) by {
                    if i > 0 {
                        assert(e[i] == rest[i - 1]);
                    }
                }
            } else {
                let k = choose|k: int|
                    0 <= k < rest.len() && regex_is_match(#[trigger] rest[k].0, text) && first_match(rest, text) == Some(rest[k].1)
                        && forall|j: int| 0 <= j < k ==> !regex_is_match(#[trigger] rest[j].0, text);
                assert(e[k + 1] == rest[k]);
                assert forall|j: int| 0 <= j < k + 1 implies !regex_is_match(#[trigger] e[j].0, text) by {
                    if j > 0 {
                        assert(e[j] == rest[j - 1]);
                    }
                }
                assert(regex_is_match(e[k + 1].0, text));
                if forall|i: int| 0 <= i < e.len() ==> !regex_is_match(#[trigger] e[i].0, text) {
                    assert(!regex_is_match(e[k + 1].0, text));
                }
            }
        }
    }
}

/// The abstract state of [`Resources`].
pub struct ResourcesView {
    /// Keyword replies: a regex pattern and the reply for texts it matches.
    pub keywords: Seq<(Seq<char>, Seq<char>)>,
    /// Menu replies: a menu key and the reply for a click on it.
    pub menus: Seq<(Seq<char>, Seq<char>)>,
    /// The greeting for new followers.
    pub subscribe: Seq<char>,
    /// The menu definition sent to the platform.
    pub menu: Seq<char>,
}

/// Everything the replies are composed from.
pub struct Resources {
    keyword_res: ReplyTable,
    menue_res: ReplyTable,
    subscribe_res: String,
    menu: String,
}

impl View for Resources {
    type V = ResourcesView;

    closed spec fn view(&self) -> ResourcesView {
        ResourcesView {
            keywords: self.keyword_res@,
            menus: self.menue_res@,
            subscribe: self.subscribe_res@,
            menu: self.menu@,
        }
    }
}

impl Resources {
    #[verifier::type_invariant]
    closed spec fn patterns_valid(&self) -> bool {
        forall|i: int| 0 <= i < self.keyword_res@.len() ==> regex_valid(#[trigger] self.keyword_res@[i].0)
    }

    /// The resources built from keyword items (regex pattern and reply),
    /// menu items (menu key and reply), the greeting and the menu
    /// definition; `None` when some keyword pattern does not compile.
    pub fn new(
        keyword_items: &Vec<ConfigIteam>,
        menu_items: &Vec<ConfigIteam>,
        subscribe_res: String,
        menu: String,
    ) -> (r: Option<Resources>)
        ensures
            r is Some <==> forall|i: int| 0 <= i < keyword_items@.len() ==> regex_valid(#[trigger] keyword_items@[i].key@),
            r matches Some(res) ==> res@ == (ResourcesView {
                keywords: table_of(items_view(keyword_items@)),
                menus: table_of(items_view(menu_items@)),
                subscribe: subscribe_res@,
                menu: menu@,
            }),
    {
        let mut i: usize = 0;
        while i < keyword_items.len()
            invariant
                i <= keyword_items.len(),
                forall|l: int| 0 <= l < i ==> regex_valid(#[trigger] keyword_items@[l].key@),
            decreases keyword_items.len() - i,
        {
            if !pattern_compiles(keyword_items[i].key.as_str()) {
                return None;
            }
            i = i + 1;
        }
        let keyword_res = ReplyTable::from_items(keyword_items);
        proof {
            lemma_table_keys_from(items_view(keyword_items@));
            assert forall|j: int| 0 <= j < keyword_res@.len() implies regex_valid(#[trigger] keyword_res@[j].0) by {
                let k = choose|k: int| 0 <= k < keyword_items@.len() && items_view(keyword_items@)[k].0 == keyword_res@[j].0;
                assert(items_view(keyword_items@)[k].0 == keyword_items@[k].key@);
            }
        }
        let menue_res = ReplyTable::from_items(menu_items);
        Some(Resources { keyword_res, menue_res, subscribe_res, menu })
    }

    /// The greeting for new followers.
    pub fn subscribe_res(&self) -> (s: &str)
        ensures
            s@ == self@.subscribe,
    {
        self.subscribe_res.as_str()
    }

    /// The menu definition sent to the platform.
    pub fn menu(&self) -> (s: &str)
        ensures
            s@ == self@.menu,
    {
        self.menu.as_str()
    }

    /// The menu replies.
    pub fn menue_res(&self) -> (t: &ReplyTable)
        ensures
            t@ == self@.menus,
    {
        &self.menue_res
    }

    /// The reply of the first keyword entry, in table order, whose pattern
    /// matches `text`.
    pub fn find_keyword(&self, text: &str) -> (r: Option<&String>)
        ensures
            match r {
                Some(v) => first_match(self@.keywords, text@) == Some(v@),
                None => first_match(self@.keywords, text@) is None,
            },
    {
        proof {
            use_type_invariant(self);
        }
        let entries = &self.keyword_res.entries;
        let ghost e = self@.keywords;
        let mut j: usize = 0;
        assert(e.skip(0) =~= e);
        while j < entries.len()
            invariant
                j <= entries.len(),
                e == items_view(entries@),
                e == self@.keywords,
                forall|l: int| 0 <= l < e.len() ==> regex_valid(#[trigger] e[l].0),
                first_match(e, text@) == first_match(e.skip(j as int), text@),
            decreases entries.len() - j,
        {
            proof {
                assert(e.skip(j as int).drop_first() =~= e.skip(j + 1));
                assert(e.skip(j as int)[0] == e[j as int]);
                assert(e[j as int] == item_view(entries@[j as int]));
            }
            if pattern_matches(entries[j].key.as_str(), text) {
                assert(first_match(e.skip(j as int), text@) == Some(e[j as int].1));
                return Some(&entries[j].response);
            }
            j = j + 1;
        }
        None
    }
}

/// Every key of a built table is the key of some item.
proof fn lemma_table_keys_from(items: Seq<(Seq<char>, Seq<char>)>)
    ensures
        forall|j: int| 0 <= j < table_of(items).len() ==> exists|k: int| 0 <= k < items.len() && (#[trigger] items[k]).0 == (#[trigger] table_of(items)[j]).0,
    decreases items.len(),
{
    if items.len() > 0 {
        let rest = items.drop_last();
        lemma_table_keys_from(rest);
        let e = table_of(rest);
        let n = table_of(items);
        assert forall|j: int| 0 <= j < n.len() implies exists|k: int| 0 <= k < items.len() && (#[trigger] items[k]).0 == (#[trigger] n[j]).0 by {
            if j < e.len() && n[j].0 == e[j].0 {
                let k = choose|k: int| 0 <= k < rest.len() && (#[trigger] rest[k]).0 == e[j].0;
                assert(items[k] == rest[k]);
            } else {
                assert(items[items.len() - 1].0 == n[j].0);
            }
        }
    }
}

} // verus!
