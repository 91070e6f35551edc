//! Character-level helpers: splitting an argument line into tokens and
//! removing quote characters from a token.

use vstd::prelude::*;

verus! {

/// The quote characters that are dropped from a configuration path.
pub open spec fn is_quote(c: char) -> bool {
    c == '"' || c == '\'' || c == '`'
}

/// `s` with every quote character removed, the other characters kept in order.
pub open spec fn strip_quotes_spec(s: Seq<char>) -> Seq<char> {
    s.filter(|c: char| !is_quote(c))
}

proof fn lemma_strip_quotes_push(s: Seq<char>, c: char)
    ensures
        strip_quotes_spec(s.push(c)) == if is_quote(c) {
            strip_quotes_spec(s)
        } else {
            strip_quotes_spec(s).push(c)
        },
{
    reveal(Seq::filter);
    assert(s.push(c).drop_last() =~= s);
}

/// Removes every `"`, `'` and `` ` `` from `s`.
pub fn strip_quotes(s: &str) -> (r: String)
    ensures
        r@ == strip_quotes_spec(s@),
{
    let n = s.unicode_len();
    let mut out = String::new();
    let mut run_start: usize = 0;
    let mut i: usize = 0;
    while i < n
        invariant
            n == s@.len(),
            run_start <= i <= n,
            strip_quotes_spec(s@.subrange(0, i as int)) == out@ + s@.subrange(
                run_start as int,
                i as int,
            ),
        decreases n - i,
    {
        let c = s.get_char(i);
        proof {
            assert(s@.subrange(0, i + 1) =~= s@.subrange(0, i as int).push(c));
            lemma_strip_quotes_push(s@.subrange(0, i as int), c);
        }
        if c == '"' || c == '\'' || c == '`' {
            out.append(s.substring_char(run_start, i));
            run_start = i + 1;
            assert(s@.subrange(run_start as int, i + 1) =~= Seq::<char>::empty());
        } else {
            assert(s@.subrange(run_start as int, i + 1) =~= s@.subrange(
                run_start as int,
                i as int,
            ).push(c));
        }
        i = i + 1;
    }
    out.append(s.substring_char(run_start, n));
    assert(s@.subrange(0, n as int) =~= s@);
    out
}

/// The tokens of `s` separated by single spaces, from left to right. Two
/// spaces in a row give an empty token between them, and a line without a
/// space is one token.
pub open spec fn split_spaces_spec(s: Seq<char>) -> Seq<Seq<char>>
    decreases s.len(),
{
    if s.len() == 0 {
        seq![Seq::empty()]
    } else {
        let before = split_spaces_spec(s.drop_last());
        if s.last() == ' ' {
            before.push(Seq::empty())
        } else {
            before.update(before.len() - 1, before.last().push(s.last()))
        }
    }
}

/// The split of a line is never empty.
pub proof fn lemma_split_spaces_nonempty(s: Seq<char>)
    ensures
        split_spaces_spec(s).len() >= 1,
    decreases s.len(),
{
    if s.len() > 0 {
        lemma_split_spaces_nonempty(s.drop_last());
    }
}

/// A space at the end of a line opens a new, empty token.
pub proof fn lemma_split_spaces_push_space(s: Seq<char>)
    ensures
        split_spaces_spec(s.push(' ')) == split_spaces_spec(s).push(Seq::empty()),
{
    assert(s.push(' ').drop_last() =~= s);
}

/// Characters other than spaces at the end of a line extend its last token.
pub proof fn lemma_split_spaces_append_word(s: Seq<char>, w: Seq<char>)
    requires
        !w.contains(' '),
    ensures
        split_spaces_spec(s + w) == split_spaces_spec(s).update(
            split_spaces_spec(s).len() - 1,
            split_spaces_spec(s).last() + w,
        ),
    decreases w.len(),
{
    let before = split_spaces_spec(s);
    lemma_split_spaces_nonempty(s);
    if w.len() == 0 {
        assert(s + w =~= s);
        assert(before.last() + w =~= before.last());
        assert(before.update(before.len() - 1, before.last() + w) =~= before);
    } else {
        let w0 = w.drop_last();
        let c = w.last();
        assert(!w0.contains(' ')) by {
            if w0.contains(' ') {
                let i = choose|i: int| 0 <= i < w0.len() && w0[i] == ' ';
                assert(w[i] == ' ');
            }
        }
        assert(c != ' ') by {
            assert(w[w.len() - 1] == c);
        }
        lemma_split_spaces_append_word(s, w0);
        assert((s + w).drop_last() =~= s + w0);
        assert((before.last() + w0).push(c) =~= before.last() + w);
        let mid = before.update(before.len() - 1, before.last() + w0);
        assert(mid.update(mid.len() - 1, mid.last().push(c)) =~= before.update(
            before.len() - 1,
            before.last() + w,
        ));
    }
}

/// Splits `s` at each space, as `str::split(' ')` does.
pub fn split_spaces(s: &str) -> (r: Vec<String>)
    ensures
        r.deep_view() == split_spaces_spec(s@),
{
    let n = s.unicode_len();
    let mut tokens: Vec<String> = Vec::new();
    let mut start: usize = 0;
    let mut i: usize = 0;
    assert(tokens.deep_view() =~= Seq::<Seq<char>>::empty());
    assert(s@.subrange(0, 0) =~= Seq::<char>::empty());
    assert(tokens.deep_view().push(s@.subrange(0, 0)) =~= split_spaces_spec(s@.subrange(0, 0)));
    while i < n
        invariant
            n == s@.len(),
            start <= i <= n,
            tokens.deep_view().push(s@.subrange(start as int, i as int)) == split_spaces_spec(
                s@.subrange(0, i as int),
            ),
        decreases n - i,
    {
        let c = s.get_char(i);
        let ghost prefix = s@.subrange(0, i + 1);
        proof {
            assert(prefix.drop_last() =~= s@.subrange(0, i as int));
            lemma_split_spaces_nonempty(prefix.drop_last());
        }
        if c == ' ' {
            let ghost before = tokens.deep_view();
            let ghost token = s@.subrange(start as int, i as int);
            tokens.push(String::from_str(s.substring_char(start, i)));
            start = i + 1;
            assert(tokens.deep_view() =~= before.push(token));
            assert(s@.subrange(start as int, i + 1) =~= Seq::<char>::empty());
        } else {
            assert(s@.subrange(start as int, i + 1) =~= s@.subrange(start as int, i as int).push(c));
        }
        i = i + 1;
    }
    proof {
        assert(s@.subrange(0, n as int) =~= s@);
    }
    tokens.push(String::from_str(s.substring_char(start, n)));
    tokens
}

} // verus!
