//! Reading a debugger command line: the line ending is dropped, and the
//! rest is cut into words at each space.
use vstd::prelude::*;

verus! {

/// The line without its ending: one `\n`, and a `\r` just before it, are
/// dropped; nothing else is.
pub open spec fn trim_newline_spec(s: Seq<char>) -> Seq<char> {
    if s.len() > 0 && s.last() == '\n' {
        let t = s.drop_last();
        if t.len() > 0 && t.last() == '\r' {
            t.drop_last()
        } else {
            t
        }
    } else {
        s
    }
}

/// The pieces of `s` between its spaces, as `str::split(' ')` gives them:
/// two spaces in a row leave an empty word between them, and the empty
/// line is one empty word.
pub open spec fn split_spaces(s: Seq<char>) -> Seq<Seq<char>>
    decreases s.len(),
{
    if s.len() == 0 {
        seq![Seq::<char>::empty()]
    } else {
        let rest = split_spaces(s.drop_first());
        if s[0] == ' ' {
            seq![Seq::<char>::empty()] + rest
        } else {
            rest.update(0, seq![s[0]] + rest[0])
        }
    }
}

/// The words of a command line as typed, line ending included.
pub open spec fn command_words(line: Seq<char>) -> Seq<Seq<char>> {
    split_spaces(trim_newline_spec(line))
}

/// A line is always cut into at least one word.
pub proof fn lemma_split_nonempty(s: Seq<char>)
    ensures
        split_spaces(s).len() >= 1,
    decreases s.len(),
{
    if s.len() > 0 {
        lemma_split_nonempty(s.drop_first());
    }
}

/// Where `k` is the first space of `s` (or its length), the first word is
/// what stands before `k`, and the other words are those of what follows it.
pub proof fn lemma_split_at_first_space(s: Seq<char>, k: int)
    requires
        0 <= k <= s.len(),
        forall|i: int| 0 <= i < k ==> s[i] != ' ',
        k < s.len() ==> s[k] == ' ',
    ensures
        k == s.len() ==> split_spaces(s) == seq![s],
        k < s.len() ==> split_spaces(s) == seq![s.take(k)] + split_spaces(s.skip(k + 1)),
    decreases k,
{
    if k == 0 {
        if s.len() == 0 {
            assert(s =~= Seq::<char>::empty());
        } else {
            assert(s.take(0) =~= Seq::<char>::empty());
            assert(s.skip(1) =~= s.drop_first());
        }
    } else {
        let t = s.drop_first();
        lemma_split_at_first_space(t, k - 1);
        lemma_split_nonempty(t);
        if k == s.len() {
            assert(seq![s[0]] + t =~= s);
            assert(split_spaces(s) =~= seq![s]);
        } else {
            assert(seq![s[0]] + t.take(k - 1) =~= s.take(k));
            assert(t.skip(k) =~= s.skip(k + 1));
            assert(split_spaces(s) =~= seq![s.take(k)] + split_spaces(s.skip(k + 1)));
        }
    }
}

/// The index of the first space of `s` at or after `from`, or the length of
/// `s` where there is none.
pub fn find_space(s: &str, from: usize) -> (res: usize)
    requires
        from <= s@.len(),
    ensures
        from <= res <= s@.len(),
        forall|i: int| from <= i < res ==> s@[i] != ' ',
        res < s@.len() ==> s@[res as int] == ' ',
{
    let n = s.unicode_len();
    let mut i = from;
    while i < n
        invariant
            n == s@.len(),
            from <= i <= n,
            forall|j: int| from <= j < i ==> s@[j] != ' ',
        decreases n - i,
    {
        if s.get_char(i) == ' ' {
            return i;
        }
        i = i + 1;
    }
    i
}

/// Whether two strings hold the same characters.
pub fn str_eq(a: &str, b: &str) -> (res: bool)
    ensures
        res == (a@ == b@),
{
    let n = a.unicode_len();
    if n != b.unicode_len() {
        return false;
    }
    let mut i: usize = 0;
    while i < n
        invariant
            n == a@.len(),
            n == b@.len(),
            i <= n,
            forall|j: int| 0 <= j < i ==> a@[j] == b@[j],
        decreases n - i,
    {
        if a.get_char(i) != b.get_char(i) {
            return false;
        }
        i = i + 1;
    }
    assert(a@ =~= b@);
    true
}

/// The line without its ending (see `trim_newline_spec`).
pub fn trim_newline<'a>(s: &'a str) -> (res: &'a str)
    ensures
        res@ == trim_newline_spec(s@),
{
    let n = s.unicode_len();
    if n > 0 && s.get_char(n - 1) == '\n' {
        let m = n - 1;
        if m > 0 && s.get_char(m - 1) == '\r' {
            let r = s.substring_char(0, m - 1);
            assert(r@ =~= s@.drop_last().drop_last());
            r
        } else {
            let r = s.substring_char(0, m);
            assert(r@ =~= s@.drop_last());
            r
        }
    } else {
        s
    }
}

/// The first word of a line that has no line ending, and the second one if
/// there is one.
pub fn first_two_words<'a>(s: &'a str) -> (res: (&'a str, Option<&'a str>))
    ensures
        res.0@ == split_spaces(s@)[0],
        res.1 is None <==> split_spaces(s@).len() < 2,
        res.1 matches Some(w) ==> w@ == split_spaces(s@)[1],
{
    let n = s.unicode_len();
    let k = find_space(s, 0);
    let first = s.substring_char(0, k);
    proof {
        lemma_split_at_first_space(s@, k as int);
    }
    if k == n {
        assert(first@ =~= s@);
        (first, None)
    } else {
        let k2 = find_space(s, k + 1);
        let second = s.substring_char(k + 1, k2);
        let ghost rest = s@.skip(k + 1);
        proof {
            assert forall|i: int| 0 <= i < k2 - (k + 1) implies rest[i] != ' ' by {
                assert(rest[i] == s@[k + 1 + i]);
            }
            if k2 < n {
                assert(rest[k2 - (k + 1)] == s@[k2 as int]);
            }
            lemma_split_at_first_space(rest, k2 - (k + 1));
            lemma_split_nonempty(rest);
        }
        assert(first@ =~= s@.take(k as int));
        if k2 == n {
            assert(second@ =~= rest);
        } else {
            assert(second@ =~= rest.take(k2 - (k + 1)));
        }
        (first, Some(second))
    }
}

} // verus!
