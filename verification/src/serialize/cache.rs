//! The set of users that were already sent the fallback reply, kept in a
//! store file with one user id per line.
use vstd::prelude::*;
use crate::text::{
    contains_str, lemma_split_append_line, lemma_split_append_plain, lemma_split_last_empty, lemma_views_push, push_char, split_chars, split_spec,
    views,
};

verus! {

/// The abstract state of a [`Cache`].
pub struct CacheView {
    /// The ids known to the cache.
    pub ids: Set<Seq<char>>,
    /// The path of the store file.
    pub store: Seq<char>,
    /// Ids that became known since the store file was last extended, in
    /// the order in which they became known.
    pub pending: Seq<Seq<char>>,
}

impl CacheView {
    /// The state after asking whether `id` exists: an unknown id becomes
    /// known and is queued for the store file.
    pub open spec fn after_exist(self, id: Seq<char>) -> CacheView {
        if self.ids.contains(id) {
            self
        } else {
            CacheView { ids: self.ids.insert(id), store: self.store, pending: self.pending.push(id) }
        }
    }
}

/// The separator between the ids of the store file.
pub open spec fn line_break() -> Seq<char> {
    seq!['\n']
}

/// The text that a sequence of ids adds to the store file: each id
/// followed by a line break.
pub open spec fn lines(ids: Seq<Seq<char>>) -> Seq<char>
    decreases ids.len(),
{
    if ids.len() == 0 {
        Seq::empty()
    } else {
        lines(ids.drop_last()) + ids.last().push('\n')
    }
}

/// The ids that a store file with the given contents holds: its lines,
/// the empty line after a final line break included.
pub open spec fn stored_ids(contents: Seq<char>) -> Set<Seq<char>> {
    split_spec(contents, line_break()).to_set()
}

/// Every line of a store file is known, the last one included whether or
/// not the file ends with a line break.
pub proof fn lemma_every_line_known(contents: Seq<char>)
    ensures
        forall|i: int| 0 <= i < split_spec(contents, line_break()).len() ==> #[trigger] stored_ids(contents).contains(
            split_spec(contents, line_break())[i],
        ),
{
    let p = split_spec(contents, line_break());
    assert forall|i: int| 0 <= i < p.len() implies #[trigger] stored_ids(contents).contains(p[i]) by {
        assert(p.contains(p[i]));
    }
}

/// A last line without a final line break is known: after complete lines
/// (or nothing), a line without line breaks is one of the stored ids, and
/// so are the complete lines before it.
pub proof fn lemma_last_line_known(s: Seq<char>, line: Seq<char>)
    requires
        s.len() == 0 || s.last() == '\n',
        forall|j: int| 0 <= j < line.len() ==> line[j] != '\n',
    ensures
        stored_ids(s + line).contains(line),
        forall|x: Seq<char>| x != Seq::<char>::empty() && #[trigger] stored_ids(s).contains(x) ==> stored_ids(s + line).contains(x),
{
    assert(line_break().contains('\n')) by {
        assert(line_break()[0] == '\n');
    }
    assert(s.len() == 0 || line_break().contains(s.last()));
    assert forall|j: int| 0 <= j < line.len() implies !line_break().contains(#[trigger] line[j]) by {
        if line_break().contains(line[j]) {
            let k = choose|k: int| 0 <= k < line_break().len() && line_break()[k] == line[j];
            assert(line_break()[k] == '\n');
        }
    }
    lemma_split_last_empty(s, line_break());
    lemma_split_append_plain(s, line, line_break());
    let r = split_spec(s, line_break());
    let n = split_spec(s + line, line_break());
    assert(Seq::<char>::empty() + line =~= line);
    assert(n == r.update(r.len() - 1, line));
    assert(n[r.len() - 1] == line);
    assert(n.contains(line));
    assert forall|x: Seq<char>| x != Seq::<char>::empty() && #[trigger] stored_ids(s).contains(x) implies stored_ids(s + line).contains(x) by {
        let k = choose|k: int| 0 <= k < r.len() && r[k] == x;
        assert(k != r.len() - 1);
        assert(n[k] == x);
    }
}

/// Asking twice: after `exist(id)`, the id is known, and asking again
/// answers yes and changes nothing.
pub proof fn lemma_exist_twice(c: CacheView, id: Seq<char>)
    ensures
        c.after_exist(id).ids.contains(id),
        c.after_exist(id).after_exist(id) == c.after_exist(id),
{
}

/// Asking about an id keeps a cache in step with the store file it was
/// loaded from: the ids it knows are the file's lines and its pending ids.
pub proof fn lemma_exist_keeps_store(contents: Seq<char>, c: CacheView, id: Seq<char>)
    requires
        c.ids == stored_ids(contents) + c.pending.to_set(),
    ensures
        c.after_exist(id).ids == stored_ids(contents) + c.after_exist(id).pending.to_set(),
{
    if !c.ids.contains(id) {
        c.pending.lemma_push_to_set_commute(id);
        assert(c.after_exist(id).ids =~= stored_ids(contents) + c.after_exist(id).pending.to_set());
    }
}

/// Reloading: a store file that is empty or ends with a line break,
/// extended by the text for some ids without line breaks, holds its old
/// lines and those ids.
pub proof fn lemma_reload(contents: Seq<char>, ids: Seq<Seq<char>>)
    requires
        contents.len() == 0 || contents.last() == '\n',
        forall|i: int, j: int| 0 <= i < ids.len() && 0 <= j < ids[i].len() ==> ids[i][j] != '\n',
    ensures
        stored_ids(contents + lines(ids)) == stored_ids(contents) + ids.to_set(),
    decreases ids.len(),
{
    if ids.len() == 0 {
        assert(contents + lines(ids) =~= contents);
        assert(stored_ids(contents) + ids.to_set() =~= stored_ids(contents));
    } else {
        let rest = ids.drop_last();
        let id = ids.last();
        lemma_reload(contents, rest);
        let t = contents + lines(rest);
        lemma_lines_end(rest);
        assert(t.len() == 0 || t.last() == '\n') by {
            if lines(rest).len() > 0 {
                assert(t.last() == lines(rest).last());
            } else {
                assert(t =~= contents);
            }
        }
        assert forall|j: int| 0 <= j < id.len() implies !line_break().contains(#[trigger] id[j]) by {
            assert(ids[ids.len() - 1][j] != '\n');
            if line_break().contains(id[j]) {
                let k = choose|k: int| 0 <= k < line_break().len() && line_break()[k] == id[j];
                assert(line_break()[k] == '\n');
            }
        }
        assert(line_break().contains('\n')) by {
            assert(line_break()[0] == '\n');
        }
        assert(t.len() == 0 || line_break().contains(t.last())) by {
            if t.len() > 0 {
                assert(line_break()[0] == t.last());
            }
        }
        lemma_split_append_line(t, id, '\n', line_break());
        assert(contents + lines(ids) =~= t + id.push('\n'));
        rest.lemma_push_to_set_commute(id);
        assert(rest.push(id) =~= ids);
        assert(stored_ids(contents + lines(ids)) =~= stored_ids(contents) + ids.to_set());
    }
}

/// The text for some ids is empty or ends with a line break.
pub proof fn lemma_lines_end(ids: Seq<Seq<char>>)
    ensures
        lines(ids).len() == 0 || lines(ids).last() == '\n',
{
    if ids.len() > 0 {
        assert((lines(ids.drop_last()) + ids.last().push('\n')).last() == '\n');
    }
}

pub struct Cache {
    sub_ids: Vec<String>,
    store: String,
    pending: Vec<String>,
}

impl View for Cache {
    type V = CacheView;

    closed spec fn view(&self) -> CacheView {
        CacheView {
            ids: views(self.sub_ids@).to_set(),
            store: self.store@,
            pending: views(self.pending@),
        }
    }
}

impl Cache {
    #[verifier::type_invariant]
    closed spec fn distinct(&self) -> bool {
        views(self.sub_ids@).no_duplicates()
    }

    /// A cache for the store file at path `store`, whose contents are
    /// `contents`: it knows every line of the file.
    pub fn new(store: &str, contents: &str) -> (c: Cache)
        ensures
            c@.ids == stored_ids(contents@),
            c@.store == store@,
            c@.pending == Seq::<Seq<char>>::empty(),
    {
        let mut seps: Vec<char> = Vec::new();
        seps.push('\n');
        assert(seps@ =~= line_break());
        let pieces = split_chars(contents, &seps);
        let mut ids: Vec<String> = Vec::new();
        let mut i: usize = 0;
        while i < pieces.len()
            invariant
                i <= pieces.len(),
                views(ids@).no_duplicates(),
                views(ids@).to_set() =~= views(pieces@).take(i as int).to_set(),
            decreases pieces.len() - i,
        {
            let ghost before = views(ids@);
            proof {
                assert(views(pieces@).take(i + 1) =~= views(pieces@).take(i as int).push(pieces@[i as int]@));
            }
            if !contains_str(&ids, pieces[i].as_str()) {
                ids.push(pieces[i].clone());
                proof {
                    assert(views(ids@) =~= before.push(pieces@[i as int]@));
                    before.lemma_push_to_set_commute(pieces@[i as int]@);
                }
            }
            proof {
                views(pieces@).take(i as int).lemma_push_to_set_commute(pieces@[i as int]@);
            }
            i = i + 1;
        }
        proof {
            assert(views(pieces@).take(pieces.len() as int) =~= views(pieces@));
        }
        Cache { sub_ids: ids, store: String::from_str(store), pending: Vec::new() }
    }

    /// Whether `id` is known. An unknown id becomes known, and is queued
    /// for the store file (see [`Cache::take_pending`]).
    pub fn exist(&mut self, id: &String) -> (known: bool)
        ensures
            known == old(self)@.ids.contains(id@),
            final(self)@ == old(self)@.after_exist(id@),
    {
        proof {
            use_type_invariant(&*self);
        }
        if contains_str(&self.sub_ids, id.as_str()) {
            true
        } else {
            let ghost ids0 = self.sub_ids@;
            let ghost pending0 = self.pending@;
            let mut ids: Vec<String> = Vec::new();
            std::mem::swap(&mut ids, &mut self.sub_ids);
            ids.push(id.clone());
            proof {
                lemma_views_push(ids0, *id);
                assert(views(ids0).push(id@).no_duplicates());
            }
            self.sub_ids = ids;
            let mut pending: Vec<String> = Vec::new();
            std::mem::swap(&mut pending, &mut self.pending);
            pending.push(id.clone());
            self.pending = pending;
            proof {
                lemma_views_push(ids0, *id);
                lemma_views_push(pending0, *id);
                views(ids0).lemma_push_to_set_commute(id@);
            }
            false
        }
    }

    /// The text to append to the store file for the ids that became known
    /// since the last call: each id on a line of its own. Afterwards no id
    /// is pending.
    pub fn take_pending(&mut self) -> (text: String)
        ensures
            text@ == lines(old(self)@.pending),
            final(self)@ == (CacheView { pending: Seq::empty(), ..old(self)@ }),
    {
        proof {
            use_type_invariant(&*self);
        }
        let mut text = String::new();
        let mut i: usize = 0;
        while i < self.pending.len()
            invariant
                i <= self.pending.len(),
                text@ == lines(views(self.pending@).take(i as int)),
            decreases self.pending.len() - i,
        {
            text.append(self.pending[i].as_str());
            push_char(&mut text, '\n');
            proof {
                let t = views(self.pending@).take(i + 1);
                assert(t.drop_last() =~= views(self.pending@).take(i as int));
                assert(text@ =~= lines(t));
            }
            i = i + 1;
        }
        proof {
            assert(views(self.pending@).take(i as int) =~= views(self.pending@));
        }
        self.pending = Vec::new();
        proof {
            assert(views(self.pending@) =~= Seq::<Seq<char>>::empty());
        }
        text
    }

    /// The path of the store file.
    pub fn store(&self) -> (s: &str)
        ensures
            s@ == self@.store,
    {
        self.store.as_str()
    }
}

} // verus!
