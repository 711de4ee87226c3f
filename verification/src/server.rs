//! The logic of the HTTP endpoints: the answer to the platform's URL check.
use vstd::prelude::*;
use crate::text::{
    lemma_split_append_plain, lemma_split_append_word_sep, lemma_split_push_sep, split_chars,
    split_spec, str_eq, views,
};

verus! {

/// The characters that separate the names and values of a query string.
pub open spec fn query_separators() -> Seq<char> {
    seq!['=', '&']
}

/// The value of the last of the first `n` name/value pairs of `pieces`
/// (pieces `2i` and `2i + 1` form pair `i`) whose name is `name`.
pub open spec fn pair_lookup(pieces: Seq<Seq<char>>, name: Seq<char>, n: int) -> Option<Seq<char>>
    decreases n,
{
    if n <= 0 {
        None
    } else if pieces[2 * (n - 1)] == name {
        Some(pieces[2 * (n - 1) + 1])
    } else {
        pair_lookup(pieces, name, n - 1)
    }
}

/// The value of parameter `name` in a query string: the pieces between the
/// `=` and `&` characters are read as name/value pairs, a later pair
/// replacing an earlier one, and a lone last piece is ignored.
pub open spec fn query_value(query: Seq<char>, name: Seq<char>) -> Option<Seq<char>> {
    let pieces = split_spec(query, query_separators());
    pair_lookup(pieces, name, (pieces.len() / 2) as int)
}

/// A word without `=` and `&`, as the names and values of a query string are.
pub open spec fn plain(w: Seq<char>) -> bool {
    forall|i: int| 0 <= i < w.len() ==> w[i] != '=' && w[i] != '&'
}

proof fn lemma_plain_no_sep(w: Seq<char>)
    requires
        plain(w),
    ensures
        forall|i: int| 0 <= i < w.len() ==> !query_separators().contains(#[trigger] w[i]),
{
    assert forall|i: int| 0 <= i < w.len() implies !query_separators().contains(#[trigger] w[i]) by {
        if query_separators().contains(w[i]) {
            let k = choose|k: int| 0 <= k < 2 && query_separators()[k] == w[i];
            assert(query_separators()[k] == '=' || query_separators()[k] == '&');
        }
    }
}

/// The query `name=value`.
pub open spec fn pair_query(name: Seq<char>, value: Seq<char>) -> Seq<char> {
    name + seq!['='] + value
}

/// The pieces of `name=value`, for a plain name and value.
proof fn lemma_pair_pieces(name: Seq<char>, value: Seq<char>)
    requires
        plain(name),
        plain(value),
    ensures
        split_spec(pair_query(name, value), query_separators()) == seq![name, value],
{
    lemma_plain_no_sep(name);
    lemma_plain_no_sep(value);
    assert(query_separators().contains('=')) by {
        assert(query_separators()[0] == '=');
    }
    let e = Seq::<char>::empty();
    assert(split_spec(e, query_separators()) == seq![e]);
    lemma_split_append_word_sep(e, name, '=', query_separators());
    assert(e + name.push('=') =~= name.push('='));
    assert(seq![e].drop_last().push(name).push(e) =~= seq![name, e]);
    lemma_split_append_plain(name.push('='), value, query_separators());
    assert(pair_query(name, value) =~= name.push('=') + value);
    assert(e + value =~= value);
    assert(seq![name, e].update(1, value) =~= seq![name, value]);
}

/// A query that is just `echostr=v` is answered with `v`.
pub proof fn lemma_echostr_alone(v: Seq<char>)
    requires
        plain(v),
    ensures
        query_value(pair_query("echostr"@, v), "echostr"@) == Some(v),
{
    reveal_strlit("echostr");
    lemma_pair_pieces("echostr"@, v);
    let p = split_spec(pair_query("echostr"@, v), query_separators());
    assert(p.len() / 2 == 1);
    assert(pair_lookup(p, "echostr"@, 1) == Some(v));
}

/// Every complete pair is read: a query made of complete pairs (an even
/// number of pieces), followed by `&echostr=v`, is answered with `v`.
pub proof fn lemma_echostr_last(q: Seq<char>, v: Seq<char>)
    requires
        q.len() > 0,
        split_spec(q, query_separators()).len() % 2 == 0,
        plain(v),
    ensures
        query_value(q + seq!['&'] + pair_query("echostr"@, v), "echostr"@) == Some(v),
{
    reveal_strlit("echostr");
    let seps = query_separators();
    let e = Seq::<char>::empty();
    let p = split_spec(q, seps);
    let n = p.len();
    assert(seps.contains('&')) by {
        assert(seps[1] == '&');
    }
    assert(seps.contains('=')) by {
        assert(seps[0] == '=');
    }
    lemma_plain_no_sep("echostr"@);
    lemma_plain_no_sep(v);
    lemma_split_push_sep(q, '&', seps);
    let a = q.push('&');
    assert(split_spec(a, seps) == p.push(e));
    lemma_split_append_word_sep(a, "echostr"@, '=', seps);
    let b = a + "echostr"@.push('=');
    assert(p.push(e).drop_last() =~= p);
    assert(split_spec(b, seps) == p.push("echostr"@).push(e));
    lemma_split_append_plain(b, v, seps);
    let r = p.push("echostr"@).push(e);
    assert(e + v =~= v);
    assert(r.update(r.len() - 1, v) =~= p.push("echostr"@).push(v));
    assert(q + seq!['&'] + pair_query("echostr"@, v) =~= b + v);
    let pieces = p.push("echostr"@).push(v);
    assert(split_spec(q + seq!['&'] + pair_query("echostr"@, v), seps) == pieces);
    assert(pieces.len() / 2 == n / 2 + 1);
    assert(2 * (n / 2 + 1 - 1) == n);
    assert(pieces[n as int] == "echostr"@);
    assert(pieces[n + 1 as int] == v);
}

/// The body of the answer to the platform's URL check: the value of the
/// `echostr` parameter of the query string, or nothing.
pub fn response_token(query: &str) -> (body: String)
    ensures
        body@ == match query_value(query@, "echostr"@) {
            Some(v) => v,
            None => Seq::empty(),
        },
{
    let mut seps: Vec<char> = Vec::new();
    seps.push('=');
    seps.push('&');
    assert(seps@ =~= query_separators());
    let pieces = split_chars(query, &seps);
    let ghost p = views(pieces@);
    let mut found: Option<usize> = None;
    let mut index: usize = 0;
    while pieces.len() - index >= 2
        invariant
            p == views(pieces@),
            index % 2 == 0,
            index <= pieces.len(),
            match found {
                Some(j) => j + 1 < pieces.len() && pair_lookup(p, "echostr"@, (index / 2) as int) == Some(p[j + 1 as int]),
                None => pair_lookup(p, "echostr"@, (index / 2) as int) is None,
            },
        decreases pieces.len() - index,
    {
        proof {
            assert(2 * ((index + 2) / 2 - 1) == index);
        }
        if str_eq(pieces[index].as_str(), "echostr") {
            found = Some(index);
        }
        index = index + 2;
    }
    proof {
        assert(index / 2 == pieces.len() / 2);
    }
    match found {
        Some(j) => pieces[j + 1].clone(),
        None => String::new(),
    }
}

} // verus!
