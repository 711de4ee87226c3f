//! Character-level helpers on strings: equality, splitting on separator
//! characters and decimal rendering of integers.
use vstd::prelude::*;

verus! {

/// Appends one character to a string (`String::push`).
#[verifier::external_body]
pub(crate) fn push_char(s: &mut String, c: char)
    ensures
        final(s)@ == old(s)@.push(c),
{
    s.push(c);
}

/// Whether the two strings hold the same characters.
pub fn str_eq(a: &str, b: &str) -> (r: bool)
    ensures
        r == (a@ == b@),
{
    let n = a.unicode_len();
    if n != b.unicode_len() {
        return false;
    }
    let mut i: usize = 0;
    while i < n
        invariant
            n == a@.len(),
            n == b@.len(),
            i <= n,
            forall|j: int| 0 <= j < i ==> a@[j] == b@[j],
        decreases n - i,
    {
        if a.get_char(i) != b.get_char(i) {
            return false;
        }
        i = i + 1;
    }
    assert(a@ =~= b@);
    true
}

/// Whether `c` occurs in `v`.
pub fn char_in(c: char, v: &Vec<char>) -> (r: bool)
    ensures
        r == v@.contains(c),
{
    let mut i: usize = 0;
    while i < v.len()
        invariant
            i <= v.len(),
            forall|j: int| 0 <= j < i ==> v@[j] != c,
        decreases v.len() - i,
    {
        if v[i] == c {
            return true;
        }
        i = i + 1;
    }
    false
}

/// Whether some string of `v` holds the same characters as `s`.
pub fn contains_str(v: &Vec<String>, s: &str) -> (r: bool)
    ensures
        r == views(v@).contains(s@),
{
    let mut i: usize = 0;
    while i < v.len()
        invariant
            i <= v.len(),
            forall|j: int| 0 <= j < i ==> views(v@)[j] != s@,
        decreases v.len() - i,
    {
        if str_eq(v[i].as_str(), s) {
            assert(views(v@)[i as int] == s@);
            return true;
        }
        i = i + 1;
    }
    proof {
        if views(v@).contains(s@) {
            let k = choose|k: int| 0 <= k < views(v@).len() && views(v@)[k] == s@;
            assert(views(v@)[k] != s@);
        }
    }
    false
}

/// Pushing a string pushes its view.
pub proof fn lemma_views_push(v: Seq<String>, x: String)
    ensures
        views(v.push(x)) == views(v).push(x@),
{
    assert(views(v.push(x)) =~= views(v).push(x@));
}

/// The pieces of `s` between the characters of `seps`, in order: a string
/// with `k` separators has `k + 1` pieces, and the empty string has one
/// (empty) piece.
pub open spec fn split_spec(s: Seq<char>, seps: Seq<char>) -> Seq<Seq<char>>
    decreases s.len(),
{
    if s.len() == 0 {
        seq![Seq::empty()]
    } else {
        let r = split_spec(s.drop_last(), seps);
        if seps.contains(s.last()) {
            r.push(Seq::empty())
        } else {
            r.update(r.len() - 1, r.last().push(s.last()))
        }
    }
}

/// The number of separator characters in `s`.
pub open spec fn count_seps(s: Seq<char>, seps: Seq<char>) -> nat
    decreases s.len(),
{
    if s.len() == 0 {
        0
    } else {
        count_seps(s.drop_last(), seps) + if seps.contains(s.last()) { 1nat } else { 0nat }
    }
}

/// `s` without its separator characters.
pub open spec fn strip_seps(s: Seq<char>, seps: Seq<char>) -> Seq<char>
    decreases s.len(),
{
    if s.len() == 0 {
        Seq::empty()
    } else if seps.contains(s.last()) {
        strip_seps(s.drop_last(), seps)
    } else {
        strip_seps(s.drop_last(), seps).push(s.last())
    }
}

/// The pieces joined without anything between them.
pub open spec fn concat_all(p: Seq<Seq<char>>) -> Seq<char>
    decreases p.len(),
{
    if p.len() == 0 {
        Seq::empty()
    } else {
        concat_all(p.drop_last()) + p.last()
    }
}

/// What splitting gives: one more piece than there are separators, no
/// piece holds a separator, and the pieces joined together are the string
/// without its separators.
pub proof fn lemma_split_pieces(s: Seq<char>, seps: Seq<char>)
    ensures
        split_spec(s, seps).len() == count_seps(s, seps) + 1,
        forall|i: int, j: int|
            0 <= i < split_spec(s, seps).len() && 0 <= j < split_spec(s, seps)[i].len()
                ==> !seps.contains(#[trigger] split_spec(s, seps)[i][j]),
        concat_all(split_spec(s, seps)) == strip_seps(s, seps),
    decreases s.len(),
{
    if s.len() == 0 {
        let p = split_spec(s, seps);
        assert(p == seq![Seq::<char>::empty()]);
        assert(p.drop_last() =~= Seq::<Seq<char>>::empty());
        assert(concat_all(p.drop_last()) == Seq::<char>::empty());
        assert(concat_all(p) =~= Seq::<char>::empty());
    } else {
        let s0 = s.drop_last();
        let c = s.last();
        lemma_split_pieces(s0, seps);
        let r = split_spec(s0, seps);
        let p = split_spec(s, seps);
        if seps.contains(c) {
            assert(p == r.push(Seq::empty()));
            assert(p.drop_last() =~= r);
            assert(concat_all(p) =~= concat_all(r));
            assert forall|i: int, j: int| 0 <= i < p.len() && 0 <= j < p[i].len() implies !seps.contains(#[trigger] p[i][j]) by {
                assert(i < r.len());
                assert(p[i] == r[i]);
            }
        } else {
            let l = r.len() - 1;
            assert(p == r.update(l, r.last().push(c)));
            assert(p.drop_last() =~= r.drop_last());
            assert(concat_all(r) == concat_all(r.drop_last()) + r.last());
            assert(concat_all(p) == concat_all(r.drop_last()) + r.last().push(c));
            assert(concat_all(p) =~= concat_all(r).push(c));
            assert forall|i: int, j: int| 0 <= i < p.len() && 0 <= j < p[i].len() implies !seps.contains(#[trigger] p[i][j]) by {
                if i == l {
                    if j < r.last().len() {
                        assert(p[i][j] == r[l][j]);
                    } else {
                        assert(p[i][j] == c);
                    }
                } else {
                    assert(p[i] == r[i]);
                }
            }
        }
    }
}

/// There is always at least one piece.
pub proof fn lemma_split_nonempty(s: Seq<char>, seps: Seq<char>)
    ensures
        split_spec(s, seps).len() >= 1,
    decreases s.len(),
{
    if s.len() > 0 {
        lemma_split_nonempty(s.drop_last(), seps);
    }
}

/// A string that is empty or ends with a separator has an empty last
/// piece.
pub proof fn lemma_split_last_empty(s: Seq<char>, seps: Seq<char>)
    requires
        s.len() == 0 || seps.contains(s.last()),
    ensures
        split_spec(s, seps).len() >= 1,
        split_spec(s, seps).last() == Seq::<char>::empty(),
{
    lemma_split_nonempty(s, seps);
}

/// Appending text without separators extends the last piece.
pub proof fn lemma_split_append_plain(s: Seq<char>, t: Seq<char>, seps: Seq<char>)
    requires
        forall|i: int| 0 <= i < t.len() ==> !seps.contains(#[trigger] t[i]),
    ensures
        split_spec(s + t, seps) == split_spec(s, seps).update(
            split_spec(s, seps).len() - 1,
            split_spec(s, seps).last() + t,
        ),
    decreases t.len(),
{
    lemma_split_nonempty(s, seps);
    let r = split_spec(s, seps);
    if t.len() == 0 {
        assert(s + t =~= s);
        assert(r.last() + t =~= r.last());
        assert(r.update(r.len() - 1, r.last() + t) =~= r);
    } else {
        let t0 = t.drop_last();
        assert forall|i: int| 0 <= i < t0.len() implies !seps.contains(#[trigger] t0[i]) by {
            assert(t0[i] == t[i]);
        }
        lemma_split_append_plain(s, t0, seps);
        assert((s + t).drop_last() =~= s + t0);
        assert((s + t).last() == t.last());
        assert(!seps.contains(t[t.len() - 1]));
        let r1 = split_spec(s + t0, seps);
        assert(r1 == r.update(r.len() - 1, r.last() + t0));
        assert(r1.len() == r.len());
        assert(r1.last() == r.last() + t0);
        assert((r.last() + t0).push(t.last()) =~= r.last() + t);
        assert(split_spec(s + t, seps) == r1.update(r1.len() - 1, r1.last().push((s + t).last())));
        assert(split_spec(s + t, seps) =~= r.update(r.len() - 1, r.last() + t));
    }
}

/// Appending a separator starts a new, empty piece.
pub proof fn lemma_split_push_sep(s: Seq<char>, c: char, seps: Seq<char>)
    requires
        seps.contains(c),
    ensures
        split_spec(s.push(c), seps) == split_spec(s, seps).push(Seq::empty()),
{
    assert(s.push(c).drop_last() =~= s);
    assert(s.push(c).last() == c);
}

/// Appending a separator-free word and a separator to a string whose last
/// piece is empty makes that word a piece and starts a new, empty piece.
pub proof fn lemma_split_append_word_sep(s: Seq<char>, word: Seq<char>, c: char, seps: Seq<char>)
    requires
        split_spec(s, seps).len() >= 1,
        split_spec(s, seps).last() == Seq::<char>::empty(),
        seps.contains(c),
        forall|i: int| 0 <= i < word.len() ==> !seps.contains(#[trigger] word[i]),
    ensures
        split_spec(s + word.push(c), seps) == split_spec(s, seps).drop_last().push(word).push(Seq::empty()),
{
    let r = split_spec(s, seps);
    lemma_split_append_plain(s, word, seps);
    assert(Seq::<char>::empty() + word =~= word);
    assert(r.update(r.len() - 1, word) =~= r.drop_last().push(word));
    lemma_split_push_sep(s + word, c, seps);
    assert(s + word.push(c) =~= (s + word).push(c));
}

/// Appending a separator-free line and a separator to a string whose last
/// piece is empty adds that line as a piece.
pub proof fn lemma_split_append_line(s: Seq<char>, line: Seq<char>, sep: char, seps: Seq<char>)
    requires
        s.len() == 0 || seps.contains(s.last()),
        seps.contains(sep),
        forall|i: int| 0 <= i < line.len() ==> !seps.contains(#[trigger] line[i]),
    ensures
        split_spec(s + line.push(sep), seps).to_set() == split_spec(s, seps).to_set().insert(line),
{
    lemma_split_last_empty(s, seps);
    lemma_split_append_plain(s, line, seps);
    let r = split_spec(s, seps);
    assert(s + line.push(sep) =~= (s + line).push(sep));
    assert((s + line).push(sep).drop_last() =~= s + line);
    assert(Seq::<char>::empty() + line =~= line);
    let n = r.update(r.len() - 1, line).push(Seq::empty());
    assert(split_spec(s + line.push(sep), seps) == n);
    assert forall|x: Seq<char>| n.to_set().contains(x) <==> r.to_set().insert(line).contains(x) by {
        if n.contains(x) {
            let k = choose|k: int| 0 <= k < n.len() && n[k] == x;
            if k < r.len() - 1 {
                assert(r[k] == x);
            }
        }
        if r.contains(x) {
            let k = choose|k: int| 0 <= k < r.len() && r[k] == x;
            if k < r.len() - 1 {
                assert(n[k] == x);
            } else {
                assert(n[r.len() as int] == x);
            }
        }
        if x == line {
            assert(n[r.len() - 1] == x);
        }
    }
    assert(n.to_set() =~= r.to_set().insert(line));
}

/// The views of a sequence of strings.
pub open spec fn views(v: Seq<String>) -> Seq<Seq<char>> {
    v.map_values(|p: String| p@)
}

/// Splits `s` at every character of `seps`, as `str::split` does with a
/// predicate that accepts exactly those characters.
pub fn split_chars(s: &str, seps: &Vec<char>) -> (pieces: Vec<String>)
    ensures
        views(pieces@) == split_spec(s@, seps@),
{
    let n = s.unicode_len();
    let mut pieces: Vec<String> = Vec::new();
    let mut cur = String::new();
    let mut i: usize = 0;
    proof {
        assert(s@.take(0) =~= Seq::<char>::empty());
        assert(views(pieces@).push(cur@) =~= split_spec(s@.take(0), seps@));
    }
    while i < n
        invariant
            n == s@.len(),
            i <= n,
            views(pieces@).push(cur@) == split_spec(s@.take(i as int), seps@),
        decreases n - i,
    {
        let c = s.get_char(i);
        proof {
            assert(s@.take(i + 1).drop_last() =~= s@.take(i as int));
            assert(s@.take(i + 1).last() == c);
            lemma_split_nonempty(s@.take(i as int), seps@);
        }
        if char_in(c, seps) {
            let done = cur;
            pieces.push(done);
            cur = String::new();
            proof {
                assert(views(pieces@) =~= split_spec(s@.take(i as int), seps@));
                assert(views(pieces@).push(cur@) =~= split_spec(s@.take(i + 1), seps@));
            }
        } else {
            let ghost before = views(pieces@);
            push_char(&mut cur, c);
            proof {
                assert(views(pieces@) == before);
                assert(views(pieces@).push(cur@) =~= split_spec(s@.take(i + 1), seps@));
            }
        }
        i = i + 1;
    }
    proof {
        assert(s@.take(n as int) =~= s@);
    }
    pieces.push(cur);
    proof {
        assert(views(pieces@) =~= split_spec(s@, seps@));
    }
    pieces
}

/// The character of a decimal digit.
pub open spec fn digit_char(d: nat) -> char {
    if d == 0 {
        '0'
    } else if d == 1 {
        '1'
    } else if d == 2 {
        '2'
    } else if d == 3 {
        '3'
    } else if d == 4 {
        '4'
    } else if d == 5 {
        '5'
    } else if d == 6 {
        '6'
    } else if d == 7 {
        '7'
    } else if d == 8 {
        '8'
    } else {
        '9'
    }
}

/// The decimal representation of `n`, without leading zeros.
pub open spec fn decimal(n: nat) -> Seq<char>
    decreases n,
{
    if n < 10 {
        seq![digit_char(n)]
    } else {
        decimal(n / 10).push(digit_char(n % 10))
    }
}

/// The number a string of decimal digits stands for.
pub open spec fn decimal_value(s: Seq<char>) -> int
    decreases s.len(),
{
    if s.len() == 0 {
        0
    } else {
        decimal_value(s.drop_last()) * 10 + ((s.last() as int) - ('0' as int))
    }
}

/// The decimal representation of `n` is made of digits, starts with a
/// non-zero digit unless `n` is zero, and stands for `n`.
pub proof fn lemma_decimal(n: nat)
    ensures
        decimal(n).len() >= 1,
        forall|i: int| 0 <= i < decimal(n).len() ==> '0' <= #[trigger] decimal(n)[i] <= '9',
        n > 0 ==> decimal(n)[0] != '0',
        decimal_value(decimal(n)) == n,
    decreases n,
{
    if n < 10 {
        let d = decimal(n);
        assert(d == seq![digit_char(n)]);
        assert(d.drop_last() =~= Seq::<char>::empty());
        assert(decimal_value(d.drop_last()) == 0);
        assert((digit_char(n) as int) - ('0' as int) == n);
        assert(decimal_value(d) == 0 * 10 + n);
    } else {
        lemma_decimal(n / 10);
        let r = decimal(n / 10);
        let d = decimal(n);
        assert(d == r.push(digit_char(n % 10)));
        assert(d.drop_last() =~= r);
        assert((digit_char(n % 10) as int) - ('0' as int) == n % 10);
        assert(r.len() >= 1);
        assert(d[0] == r[0]);
        assert forall|i: int| 0 <= i < d.len() implies '0' <= #[trigger] d[i] <= '9' by {
            if i < r.len() {
                assert(d[i] == r[i]);
            }
        }
        assert((n / 10) * 10 + n % 10 == n);
        assert(decimal_value(d) == decimal_value(r) * 10 + n % 10);
    }
}

fn digit(d: u64) -> (c: char)
    requires
        d < 10,
    ensures
        c == digit_char(d as nat),
{
    if d == 0 {
        '0'
    } else if d == 1 {
        '1'
    } else if d == 2 {
        '2'
    } else if d == 3 {
        '3'
    } else if d == 4 {
        '4'
    } else if d == 5 {
        '5'
    } else if d == 6 {
        '6'
    } else if d == 7 {
        '7'
    } else if d == 8 {
        '8'
    } else {
        '9'
    }
}

/// Appends the decimal representation of `n` to `s`.
pub fn push_decimal(s: &mut String, n: u64)
    ensures
        final(s)@ == old(s)@ + decimal(n as nat),
    decreases n,
{
    if n < 10 {
        push_char(s, digit(n));
        assert(decimal(n as nat) =~= seq![digit_char(n as nat)]);
    } else {
        push_decimal(s, n / 10);
        push_char(s, digit(n % 10));
        assert(old(s)@ + decimal(n as nat) =~= old(s)@ + decimal((n / 10) as nat) + seq![digit_char((n % 10) as nat)]);
    }
}

/// The decimal representation of `n` (as `n.to_string()`).
pub fn decimal_string(n: u64) -> (s: String)
    ensures
        s@ == decimal(n as nat),
{
    let mut s = String::new();
    push_decimal(&mut s, n);
    assert(s@ =~= decimal(n as nat));
    s
}

} // verus!
