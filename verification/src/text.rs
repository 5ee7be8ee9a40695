//! Character-level helpers shared by the parsers and formatters.
use vstd::prelude::*;

verus! {

/// Appends one character to a string (`String::push`).
/// Trusted: the new contents are the old contents followed by `c`.
#[verifier::external_body]
pub(crate) fn push_char(s: &mut String, c: char)
    ensures
        final(s)@ == old(s)@.push(c),
{
    s.push(c)
}

/// The characters of `s`, in order.
pub fn chars_of(s: &str) -> (v: Vec<char>)
    ensures
        v@ == s@,
{
    let mut v: Vec<char> = Vec::new();
    let ghost all = s@;
    for c in it: s.chars()
        invariant
            it.seq() == all,
            v@ == all.take(it.index() as int),
    {
        proof {
            assert(all.take(it.index() + 1) == all.take(it.index() as int).push(c));
        }
        v.push(c);
    }
    proof {
        assert(all.take(all.len() as int) == all);
    }
    v
}

/// The contents of a list of strings.
pub open spec fn views(v: Seq<String>) -> Seq<Seq<char>> {
    Seq::new(v.len(), |i: int| v[i]@)
}

/// The pieces of `s` between occurrences of `sep`, as `str::split(sep)`
/// yields them: never empty, and "" gives one empty piece.
pub open spec fn split_on(s: Seq<char>, sep: char) -> Seq<Seq<char>>
    decreases s.len(),
{
    if s.len() == 0 {
        seq![Seq::<char>::empty()]
    } else {
        let prev = split_on(s.drop_last(), sep);
        if s.last() == sep {
            prev.push(Seq::<char>::empty())
        } else {
            prev.update(prev.len() - 1, prev.last().push(s.last()))
        }
    }
}

/// The pieces of `parts` joined with `sep` between them.
pub open spec fn join_on(parts: Seq<Seq<char>>, sep: char) -> Seq<char>
    decreases parts.len(),
{
    if parts.len() == 0 {
        Seq::<char>::empty()
    } else if parts.len() == 1 {
        parts[0]
    } else {
        join_on(parts.drop_last(), sep).push(sep) + parts.last()
    }
}

pub proof fn lemma_split_len(s: Seq<char>, sep: char)
    ensures
        split_on(s, sep).len() >= 1,
    decreases s.len(),
{
    if s.len() > 0 {
        lemma_split_len(s.drop_last(), sep);
    }
}

/// Appending text free of the separator extends the last piece.
proof fn lemma_split_append_free(a: Seq<char>, q: Seq<char>, sep: char)
    requires
        !q.contains(sep),
    ensures
        split_on(a + q, sep) == split_on(a, sep).update(
            split_on(a, sep).len() - 1,
            split_on(a, sep).last() + q,
        ),
    decreases q.len(),
{
    lemma_split_len(a, sep);
    let sa = split_on(a, sep);
    if q.len() == 0 {
        assert(a + q == a);
        assert(sa.last() + q == sa.last());
        assert(sa.update(sa.len() - 1, sa.last()) == sa);
    } else {
        let q0 = q.drop_last();
        assert(!q0.contains(sep)) by {
            if q0.contains(sep) {
                let k = choose|k: int| 0 <= k < q0.len() && q0[k] == sep;
                assert(q[k] == sep);
            }
        }
        lemma_split_append_free(a, q0, sep);
        assert((a + q).drop_last() == a + q0);
        assert((a + q).last() == q.last());
        assert(q.last() != sep) by {
            assert(q[q.len() - 1] == q.last());
        }
        assert((sa.last() + q0).push(q.last()) == sa.last() + q);
        lemma_split_len(a + q0, sep);
        assert(split_on(a + q, sep) == sa.update(sa.len() - 1, sa.last() + q));
    }
}

/// Splitting text joined with a separator that no piece contains gives
/// back the pieces.
pub proof fn lemma_split_join(parts: Seq<Seq<char>>, sep: char)
    requires
        parts.len() >= 1,
        forall|i: int| 0 <= i < parts.len() ==> !(#[trigger] parts[i]).contains(sep),
    ensures
        split_on(join_on(parts, sep), sep) == parts,
    decreases parts.len(),
{
    if parts.len() == 1 {
        lemma_split_append_free(Seq::<char>::empty(), parts[0], sep);
        assert(Seq::<char>::empty() + parts[0] == parts[0]);
        assert(split_on(Seq::<char>::empty(), sep) == seq![Seq::<char>::empty()]);
        assert(Seq::<char>::empty() + parts[0] == parts[0]);
        assert(seq![Seq::<char>::empty()].update(0, Seq::<char>::empty() + parts[0]) == parts);
    } else {
        let init = parts.drop_last();
        lemma_split_join(init, sep);
        let a = join_on(init, sep).push(sep);
        assert(a.drop_last() == join_on(init, sep));
        assert(split_on(a, sep) == init.push(Seq::<char>::empty()));
        assert(!parts.last().contains(sep)) by {
            assert(parts[parts.len() - 1] == parts.last());
        }
        lemma_split_append_free(a, parts.last(), sep);
        assert(Seq::<char>::empty() + parts.last() == parts.last());
        assert(init.push(Seq::<char>::empty()).update(init.len() as int, parts.last()) == parts);
    }
}

/// Splits `s` at every `sep`, as `s.split(sep)` does.
pub fn split_fields(s: &str, sep: char) -> (v: Vec<String>)
    ensures
        views(v@) == split_on(s@, sep),
{
    let cs = chars_of(s);
    let n = cs.len();
    let mut done: Vec<String> = Vec::new();
    let mut cur = String::new();
    let mut i: usize = 0;
    while i < n
        invariant
            i <= n,
            n == cs@.len(),
            cs@ == s@,
            done.len() + 1 == split_on(cs@.take(i as int), sep).len(),
            forall|j: int| 0 <= j < done.len() ==> #[trigger] done@[j]@ == split_on(cs@.take(i as int), sep)[j],
            cur@ == split_on(cs@.take(i as int), sep).last(),
        decreases n - i,
    {
        let c = cs[i];
        proof {
            assert(cs@.take(i + 1).drop_last() == cs@.take(i as int));
            assert(cs@.take(i + 1).last() == c);
            lemma_split_len(cs@.take(i as int), sep);
        }
        if c == sep {
            let finished = cur;
            done.push(finished);
            cur = String::new();
        } else {
            push_char(&mut cur, c);
        }
        i = i + 1;
    }
    done.push(cur);
    proof {
        assert(cs@.take(n as int) == cs@);
        assert(views(done@) =~= split_on(s@, sep));
    }
    done
}

/// Whether `c` has the Unicode `White_Space` property (`char::is_whitespace`).
pub open spec fn is_unicode_whitespace(c: char) -> bool {
    let u = c as u32;
    ||| 0x09 <= u <= 0x0D
    ||| u == 0x20
    ||| u == 0x85
    ||| u == 0xA0
    ||| u == 0x1680
    ||| 0x2000 <= u <= 0x200A
    ||| u == 0x2028
    ||| u == 0x2029
    ||| u == 0x202F
    ||| u == 0x205F
    ||| u == 0x3000
}

pub fn is_whitespace_char(c: char) -> (b: bool)
    ensures
        b == is_unicode_whitespace(c),
{
    let u = c as u32;
    (0x09 <= u && u <= 0x0D) || u == 0x20 || u == 0x85 || u == 0xA0 || u == 0x1680
        || (0x2000 <= u && u <= 0x200A) || u == 0x2028 || u == 0x2029 || u == 0x202F
        || u == 0x205F || u == 0x3000
}

/// The pieces of `s` between whitespace characters, empty ones included.
pub open spec fn whitespace_pieces(s: Seq<char>) -> Seq<Seq<char>>
    decreases s.len(),
{
    if s.len() == 0 {
        seq![Seq::<char>::empty()]
    } else {
        let prev = whitespace_pieces(s.drop_last());
        if is_unicode_whitespace(s.last()) {
            prev.push(Seq::<char>::empty())
        } else {
            prev.update(prev.len() - 1, prev.last().push(s.last()))
        }
    }
}

/// The non-empty pieces of `ps`, in order.
pub open spec fn non_empty(ps: Seq<Seq<char>>) -> Seq<Seq<char>>
    decreases ps.len(),
{
    if ps.len() == 0 {
        Seq::<Seq<char>>::empty()
    } else if ps.last().len() == 0 {
        non_empty(ps.drop_last())
    } else {
        non_empty(ps.drop_last()).push(ps.last())
    }
}

/// The words of `s`, as `str::split_whitespace` yields them.
pub open spec fn words(s: Seq<char>) -> Seq<Seq<char>> {
    non_empty(whitespace_pieces(s))
}

/// `s` with every `|` turned into a space (`s.replace('|', " ")`).
pub open spec fn bars_to_spaces(s: Seq<char>) -> Seq<char> {
    Seq::new(s.len(), |i: int| if s[i] == '|' { ' ' } else { s[i] })
}

proof fn lemma_whitespace_pieces_len(s: Seq<char>)
    ensures
        whitespace_pieces(s).len() >= 1,
    decreases s.len(),
{
    if s.len() > 0 {
        lemma_whitespace_pieces_len(s.drop_last());
    }
}

/// The words of a command line, where `|` also separates words:
/// `text.replace('|', " ").split_whitespace()`.
pub fn command_words(text: &str) -> (v: Vec<String>)
    ensures
        views(v@) == words(bars_to_spaces(text@)),
{
    let cs = chars_of(text);
    let n = cs.len();
    let ghost r = bars_to_spaces(text@);
    let mut done: Vec<String> = Vec::new();
    let mut cur = String::new();
    let mut i: usize = 0;
    while i < n
        invariant
            i <= n,
            n == cs@.len(),
            cs@ == text@,
            r == bars_to_spaces(text@),
            r.len() == n,
            whitespace_pieces(r.take(i as int)).len() >= 1,
            views(done@) == non_empty(whitespace_pieces(r.take(i as int)).drop_last()),
            cur@ == whitespace_pieces(r.take(i as int)).last(),
        decreases n - i,
    {
        let raw = cs[i];
        let c = if raw == '|' { ' ' } else { raw };
        let ghost ps = whitespace_pieces(r.take(i as int));
        proof {
            assert(r[i as int] == c);
            assert(r.take(i + 1).drop_last() == r.take(i as int));
            assert(r.take(i + 1).last() == c);
            lemma_whitespace_pieces_len(r.take(i + 1));
            assert(ps == ps.drop_last().push(ps.last()));
        }
        if is_whitespace_char(c) {
            if !cur.as_str().is_empty() {
                let ghost before = views(done@);
                let finished = cur;
                done.push(finished);
                proof {
                    assert(views(done@) =~= before.push(finished@));
                }
            } else {
                proof {
                    assert(cur@.len() == 0);
                }
            }
            cur = String::new();
            proof {
                assert(whitespace_pieces(r.take(i + 1)).drop_last() == ps);
            }
        } else {
            push_char(&mut cur, c);
            proof {
                assert(whitespace_pieces(r.take(i + 1)).drop_last() == ps.drop_last());
            }
        }
        i = i + 1;
    }
    proof {
        assert(r.take(n as int) == r);
    }
    let ghost ps = whitespace_pieces(r);
    proof {
        assert(ps == ps.drop_last().push(ps.last()));
    }
    if !cur.as_str().is_empty() {
        let ghost before = views(done@);
        done.push(cur);
        proof {
            assert(views(done@) =~= before.push(ps.last()));
        }
    }
    done
}

/// Whether two texts hold the same characters.
pub fn same_text(a: &str, b: &str) -> (r: bool)
    ensures
        r == (a@ == b@),
{
    let x = chars_of(a);
    let y = chars_of(b);
    if x.len() != y.len() {
        return false;
    }
    let mut i: usize = 0;
    while i < x.len()
        invariant
            x@ == a@,
            y@ == b@,
            x.len() == y.len(),
            i <= x.len(),
            forall|j: int| 0 <= j < i ==> x@[j] == y@[j],
        decreases x.len() - i,
    {
        if x[i] != y[i] {
            return false;
        }
        i = i + 1;
    }
    proof {
        assert(x@ =~= y@);
    }
    true
}

/// A word is clean when it is non-empty and holds no whitespace and no `|`.
pub open spec fn clean_word(w: Seq<char>) -> bool {
    &&& w.len() > 0
    &&& forall|j: int| 0 <= j < w.len() ==> !is_unicode_whitespace(#[trigger] w[j]) && w[j] != '|'
}

/// Every piece between whitespace holds only characters of `s` that are
/// not whitespace.
proof fn lemma_whitespace_pieces_chars(s: Seq<char>)
    ensures
        forall|i: int, j: int| 0 <= i < whitespace_pieces(s).len() && 0 <= j < whitespace_pieces(s)[i].len()
            ==> !is_unicode_whitespace(#[trigger] whitespace_pieces(s)[i][j]) && s.contains(whitespace_pieces(s)[i][j]),
    decreases s.len(),
{
    if s.len() > 0 {
        let prev = whitespace_pieces(s.drop_last());
        lemma_whitespace_pieces_chars(s.drop_last());
        lemma_whitespace_pieces_len(s.drop_last());
        assert forall|i: int, j: int| 0 <= i < whitespace_pieces(s).len() && 0 <= j < whitespace_pieces(s)[i].len()
            implies !is_unicode_whitespace(#[trigger] whitespace_pieces(s)[i][j]) && s.contains(whitespace_pieces(s)[i][j]) by {
            let c = whitespace_pieces(s)[i][j];
            if is_unicode_whitespace(s.last()) {
                assert(i < prev.len());
                assert(c == prev[i][j]);
                assert(s.drop_last().contains(c));
                let k = choose|k: int| 0 <= k < s.drop_last().len() && s.drop_last()[k] == c;
                assert(s[k] == c);
            } else if i < prev.len() - 1 {
                assert(c == prev[i][j]);
                let k = choose|k: int| 0 <= k < s.drop_last().len() && s.drop_last()[k] == c;
                assert(s[k] == c);
            } else if j < prev.last().len() {
                assert(c == prev[prev.len() - 1][j]);
                let k = choose|k: int| 0 <= k < s.drop_last().len() && s.drop_last()[k] == c;
                assert(s[k] == c);
            } else {
                assert(c == s.last());
                assert(s[s.len() - 1] == c);
            }
        }
    }
}

/// The non-empty pieces are non-empty, and each is one of the pieces.
proof fn lemma_non_empty_members(ps: Seq<Seq<char>>)
    ensures
        forall|k: int| 0 <= k < non_empty(ps).len() ==> (#[trigger] non_empty(ps)[k]).len() > 0
            && exists|i: int| 0 <= i < ps.len() && ps[i] == non_empty(ps)[k],
    decreases ps.len(),
{
    if ps.len() > 0 {
        lemma_non_empty_members(ps.drop_last());
        assert forall|k: int| 0 <= k < non_empty(ps).len() implies (#[trigger] non_empty(ps)[k]).len() > 0
            && exists|i: int| 0 <= i < ps.len() && ps[i] == non_empty(ps)[k] by {
            let prev = non_empty(ps.drop_last());
            if k < prev.len() {
                assert(non_empty(ps)[k] == prev[k]);
                let i = choose|i: int| 0 <= i < ps.drop_last().len() && ps.drop_last()[i] == prev[k];
                assert(ps[i] == non_empty(ps)[k]);
            } else {
                assert(non_empty(ps)[k] == ps.last());
                assert(ps[ps.len() - 1] == non_empty(ps)[k]);
            }
        }
    }
}

/// Every word of a command line is non-empty and holds no whitespace and
/// no `|`.
pub proof fn lemma_command_words_clean(text: Seq<char>)
    ensures
        forall|k: int| 0 <= k < words(bars_to_spaces(text)).len() ==> clean_word(#[trigger] words(bars_to_spaces(text))[k]),
{
    let r = bars_to_spaces(text);
    let ps = whitespace_pieces(r);
    lemma_whitespace_pieces_chars(r);
    lemma_non_empty_members(ps);
    assert forall|k: int| 0 <= k < words(r).len() implies clean_word(#[trigger] words(r)[k]) by {
        let w = words(r)[k];
        let i = choose|i: int| 0 <= i < ps.len() && ps[i] == w;
        assert forall|j: int| 0 <= j < w.len() implies !is_unicode_whitespace(#[trigger] w[j]) && w[j] != '|' by {
            assert(w[j] == ps[i][j]);
            assert(r.contains(ps[i][j]));
            let m = choose|m: int| 0 <= m < r.len() && r[m] == w[j];
            assert(r[m] != '|');
        }
    }
}

/// Appending text keeps every piece of `a` but its last one.
pub proof fn lemma_split_prefix(a: Seq<char>, b: Seq<char>, sep: char)
    ensures
        split_on(a + b, sep).len() >= split_on(a, sep).len(),
        forall|i: int| 0 <= i < split_on(a, sep).len() - 1 ==> #[trigger] split_on(a + b, sep)[i] == split_on(a, sep)[i],
    decreases b.len(),
{
    lemma_split_len(a, sep);
    if b.len() == 0 {
        assert(a + b == a);
    } else {
        let b0 = b.drop_last();
        lemma_split_prefix(a, b0, sep);
        lemma_split_len(a + b0, sep);
        assert((a + b).drop_last() == a + b0);
        assert((a + b).last() == b.last());
    }
}

/// A separator followed by any text keeps every piece before it.
pub proof fn lemma_split_extend(a: Seq<char>, extra: Seq<char>, sep: char)
    ensures
        split_on(a + seq![sep] + extra, sep).len() > split_on(a, sep).len(),
        forall|i: int| 0 <= i < split_on(a, sep).len() ==> #[trigger] split_on(a + seq![sep] + extra, sep)[i] == split_on(a, sep)[i],
{
    let a1 = a + seq![sep];
    assert(a1.drop_last() == a);
    assert(a1.last() == sep);
    lemma_split_len(a, sep);
    lemma_split_prefix(a1, extra, sep);
    assert(a1 + extra == a + seq![sep] + extra);
}

} // verus!
