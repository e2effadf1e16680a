//! The `.gitignore` update: the file's text is split into lines, and when no
//! line equals the config file's name, the name is appended as one further
//! line and the lines are joined back together. A proof shows that the
//! rewrite keeps every prior line unchanged and in order.

use vstd::prelude::*;
use vstd::string::StrSliceExecFns;
use vstd::string::StringExecFns;

use crate::text::str_eq;

verus! {

/// `l` with one trailing carriage return removed.
pub open spec fn strip_cr(l: Seq<char>) -> Seq<char> {
    if l.len() > 0 && l.last() == '\r' {
        l.drop_last()
    } else {
        l
    }
}

/// Splits what is left of the text into lines, `cur` being the line begun so
/// far: a line ends at a newline or at the end of the text, an empty final
/// segment is no line, and each line loses one trailing carriage return.
pub open spec fn lines_acc(s: Seq<char>, cur: Seq<char>) -> Seq<Seq<char>>
    decreases s.len(),
{
    if s.len() == 0 {
        if cur.len() == 0 {
            Seq::empty()
        } else {
            seq![strip_cr(cur)]
        }
    } else if s[0] == '\n' {
        seq![strip_cr(cur)] + lines_acc(s.skip(1), Seq::empty())
    } else {
        lines_acc(s.skip(1), cur.push(s[0]))
    }
}

/// The lines of `s`: split at newlines, one trailing carriage return removed
/// from each, a final empty segment dropped.
pub open spec fn lines_of(s: Seq<char>) -> Seq<Seq<char>> {
    lines_acc(s, Seq::empty())
}

/// The lines joined back into one text, one newline between each two.
pub open spec fn join_lines(ls: Seq<Seq<char>>) -> Seq<char>
    decreases ls.len(),
{
    if ls.len() == 0 {
        Seq::empty()
    } else if ls.len() == 1 {
        ls[0]
    } else {
        ls[0] + seq!['\n'] + join_lines(ls.skip(1))
    }
}

proof fn lemma_join_push(ls: Seq<Seq<char>>, l: Seq<char>)
    ensures
        join_lines(ls.push(l)) == if ls.len() == 0 {
            l
        } else {
            join_lines(ls) + seq!['\n'] + l
        },
    decreases ls.len(),
{
    if ls.len() == 0 {
        assert(ls.push(l) =~= seq![l]);
        assert(join_lines(seq![l]) == seq![l][0]);
        assert(seq![l][0] == l);
    } else if ls.len() == 1 {
        assert(ls.push(l).skip(1) =~= seq![l]);
        assert(ls.push(l)[0] == ls[0]);
        assert(join_lines(ls.push(l)) == ls[0] + seq!['\n'] + join_lines(seq![l]));
        assert(join_lines(seq![l]) == seq![l][0]);
        assert(seq![l][0] == l);
        assert(join_lines(ls) == ls[0]);
    } else {
        lemma_join_push(ls.skip(1), l);
        assert(ls.push(l).skip(1) =~= ls.skip(1).push(l));
        assert(ls.push(l)[0] == ls[0]);
        assert(ls[0] + seq!['\n'] + (join_lines(ls.skip(1)) + seq!['\n'] + l) =~= (ls[0]
            + seq!['\n'] + join_lines(ls.skip(1))) + seq!['\n'] + l);
    }
}

proof fn lemma_lines_acc_no_newline(s: Seq<char>, cur: Seq<char>)
    requires
        !s.contains('\n'),
    ensures
        lines_acc(s, cur) == if cur.len() + s.len() == 0 {
            Seq::<Seq<char>>::empty()
        } else {
            seq![strip_cr(cur + s)]
        },
    decreases s.len(),
{
    if s.len() == 0 {
        assert(cur + s =~= cur);
    } else {
        assert(s[0] != '\n');
        assert(!s.skip(1).contains('\n')) by {
            if s.skip(1).contains('\n') {
                let k = choose|k: int| 0 <= k < s.skip(1).len() && s.skip(1)[k] == '\n';
                assert(s[k + 1] == '\n');
            }
        }
        lemma_lines_acc_no_newline(s.skip(1), cur.push(s[0]));
        assert(cur.push(s[0]) + s.skip(1) =~= cur + s);
        assert(cur.push(s[0]).len() + s.skip(1).len() == cur.len() + s.len());
    }
}

proof fn lemma_lines_acc_through_line(a: Seq<char>, b: Seq<char>, cur: Seq<char>)
    requires
        !a.contains('\n'),
    ensures
        lines_acc(a + seq!['\n'] + b, cur) == seq![strip_cr(cur + a)] + lines_acc(b, Seq::empty()),
    decreases a.len(),
{
    let s = a + seq!['\n'] + b;
    if a.len() == 0 {
        assert(s[0] == '\n');
        assert(s.skip(1) =~= b);
        assert(cur + a =~= cur);
    } else {
        assert(s[0] == a[0]);
        assert(a[0] != '\n');
        assert(s.skip(1) =~= a.skip(1) + seq!['\n'] + b);
        assert(!a.skip(1).contains('\n')) by {
            if a.skip(1).contains('\n') {
                let k = choose|k: int| 0 <= k < a.skip(1).len() && a.skip(1)[k] == '\n';
                assert(a[k + 1] == '\n');
            }
        }
        lemma_lines_acc_through_line(a.skip(1), b, cur.push(a[0]));
        assert(cur.push(a[0]) + a.skip(1) =~= cur + a);
    }
}

/// No line that splitting produces holds a newline character.
pub proof fn lemma_lines_have_no_newline(s: Seq<char>)
    ensures
        forall|i: int|
            0 <= i < lines_of(s).len() ==> !(#[trigger] lines_of(s)[i]).contains('\n'),
{
    lemma_lines_acc_free_of_newline(s, Seq::empty());
}

proof fn lemma_strip_cr_no_newline(l: Seq<char>)
    requires
        !l.contains('\n'),
    ensures
        !strip_cr(l).contains('\n'),
{
    if strip_cr(l).contains('\n') {
        let k = choose|k: int| 0 <= k < strip_cr(l).len() && strip_cr(l)[k] == '\n';
        assert(l[k] == '\n');
    }
}

proof fn lemma_lines_acc_free_of_newline(s: Seq<char>, cur: Seq<char>)
    requires
        !cur.contains('\n'),
    ensures
        forall|i: int|
            0 <= i < lines_acc(s, cur).len() ==> !(#[trigger] lines_acc(s, cur)[i]).contains('\n'),
    decreases s.len(),
{
    if s.len() == 0 {
        if cur.len() > 0 {
            lemma_strip_cr_no_newline(cur);
            assert(lines_acc(s, cur) =~= seq![strip_cr(cur)]);
            assert(lines_acc(s, cur)[0] == strip_cr(cur));
        }
    } else if s[0] == '\n' {
        lemma_strip_cr_no_newline(cur);
        lemma_lines_acc_free_of_newline(s.skip(1), Seq::empty());
        let rest = lines_acc(s.skip(1), Seq::empty());
        assert(lines_acc(s, cur) == seq![strip_cr(cur)] + rest);
        assert forall|i: int|
            0 <= i < lines_acc(s, cur).len() implies !(#[trigger] lines_acc(s, cur)[i]).contains(
            '\n',
        ) by {
            if i == 0 {
                assert(lines_acc(s, cur)[0] == strip_cr(cur));
            } else {
                assert(lines_acc(s, cur)[i] == rest[i - 1]);
                assert(!rest[i - 1].contains('\n'));
            }
        }
    } else {
        assert(!cur.push(s[0]).contains('\n')) by {
            if cur.push(s[0]).contains('\n') {
                let k = choose|k: int| 0 <= k < cur.push(s[0]).len() && cur.push(s[0])[k] == '\n';
                if k < cur.len() {
                    assert(cur[k] == '\n');
                } else {
                    assert(s[0] == '\n');
                }
            }
        }
        lemma_lines_acc_free_of_newline(s.skip(1), cur.push(s[0]));
        assert(lines_acc(s, cur) == lines_acc(s.skip(1), cur.push(s[0])));
        assert forall|i: int|
            0 <= i < lines_acc(s, cur).len() implies !(#[trigger] lines_acc(s, cur)[i]).contains(
            '\n',
        ) by {
            assert(lines_acc(s, cur)[i] == lines_acc(s.skip(1), cur.push(s[0]))[i]);
            assert(!lines_acc(s.skip(1), cur.push(s[0]))[i].contains('\n'));
        }
    }
}

/// Joining lines and splitting again gives the lines back, provided no line
/// holds a newline, no line ends with a carriage return, and the final line
/// is not empty.
pub proof fn lemma_lines_of_join(ls: Seq<Seq<char>>)
    requires
        ls.len() > 0,
        forall|i: int| 0 <= i < ls.len() ==> !(#[trigger] ls[i]).contains('\n'),
        forall|i: int|
            0 <= i < ls.len() ==> ((#[trigger] ls[i]).len() == 0 || ls[i].last() != '\r'),
        ls.last().len() > 0,
    ensures
        lines_of(join_lines(ls)) == ls,
    decreases ls.len(),
{
    if ls.len() == 1 {
        let l = ls[0];
        lemma_lines_acc_no_newline(l, Seq::empty());
        assert(Seq::<char>::empty() + l =~= l);
        assert(strip_cr(l) == l);
        assert(seq![l] =~= ls);
    } else {
        let rest = ls.skip(1);
        lemma_lines_acc_through_line(ls[0], join_lines(rest), Seq::empty());
        assert(Seq::<char>::empty() + ls[0] =~= ls[0]);
        assert(strip_cr(ls[0]) == ls[0]);
        assert(forall|i: int| 0 <= i < rest.len() ==> rest[i] == ls[i + 1]);
        assert(rest.last() == ls.last());
        lemma_lines_of_join(rest);
        assert(seq![ls[0]] + rest =~= ls);
    }
}

/// The rewrite that adds a missing entry keeps every prior line unchanged
/// and in order, and adds the entry as exactly one further final line —
/// provided no prior line ends with a bare carriage return, and the entry
/// itself is a non-empty line.
pub proof fn lemma_gitignore_appends_one_line(contents: Seq<char>, entry: Seq<char>)
    requires
        entry.len() > 0,
        !entry.contains('\n'),
        entry.last() != '\r',
        forall|i: int|
            0 <= i < lines_of(contents).len() ==> ((#[trigger] lines_of(contents)[i]).len() == 0
                || lines_of(contents)[i].last() != '\r'),
    ensures
        lines_of(join_lines(lines_of(contents).push(entry))) == lines_of(contents).push(entry),
{
    let ls = lines_of(contents).push(entry);
    lemma_lines_have_no_newline(contents);
    assert(forall|i: int|
        0 <= i < lines_of(contents).len() ==> ls[i] == #[trigger] lines_of(contents)[i]);
    assert(ls.last() == entry);
    lemma_lines_of_join(ls);
}

/// `l` with one trailing carriage return removed.
fn strip_trailing_cr(l: String) -> (r: String)
    ensures
        r@ == strip_cr(l@),
{
    let n = l.as_str().unicode_len();
    if n > 0 && l.as_str().get_char(n - 1) == '\r' {
        let r = l.as_str().substring_char(0, n - 1).to_owned();
        proof {
            assert(l@.subrange(0, n - 1) =~= l@.drop_last());
        }
        r
    } else {
        l
    }
}

/// The text's lines, as `lines_of` describes them.
pub fn split_lines(s: &str) -> (r: Vec<String>)
    ensures
        r.deep_view() == lines_of(s@),
{
    let n = s.unicode_len();
    let mut r: Vec<String> = Vec::new();
    let mut cur = String::new();
    let mut i: usize = 0;
    proof {
        assert(s@.skip(0) =~= s@);
        assert(r.deep_view() + lines_acc(s@, cur@) =~= lines_of(s@));
    }
    while i < n
        invariant
            0 <= i <= n,
            n == s@.len(),
            lines_of(s@) == r.deep_view() + lines_acc(s@.skip(i as int), cur@),
        decreases n - i,
    {
        let ghost pre = r.deep_view();
        let ghost pre_cur = cur@;
        proof {
            assert(s@.skip(i as int)[0] == s@[i as int]);
            assert(s@.skip(i as int).skip(1) =~= s@.skip(i + 1));
        }
        let c = s.get_char(i);
        if c == '\n' {
            let line = strip_trailing_cr(cur);
            r.push(line);
            cur = String::new();
            proof {
                assert(r.deep_view() =~= pre.push(strip_cr(pre_cur)));
                assert(pre.push(strip_cr(pre_cur)) + lines_acc(s@.skip(i + 1), cur@) =~= pre + (
                seq![strip_cr(pre_cur)] + lines_acc(s@.skip(i + 1), Seq::empty())));
            }
        } else {
            cur.append(s.substring_char(i, i + 1));
            proof {
                assert(s@.subrange(i as int, i + 1) =~= seq![s@[i as int]]);
                assert(cur@ =~= pre_cur.push(s@[i as int]));
            }
        }
        i += 1;
    }
    proof {
        assert(s@.skip(n as int) =~= Seq::<char>::empty());
    }
    if cur.as_str().unicode_len() > 0 {
        let ghost pre = r.deep_view();
        let ghost pre_cur = cur@;
        let line = strip_trailing_cr(cur);
        r.push(line);
        proof {
            assert(r.deep_view() =~= pre.push(strip_cr(pre_cur)));
            assert(pre.push(strip_cr(pre_cur)) =~= pre + seq![strip_cr(pre_cur)]);
        }
    } else {
        proof {
            assert(r.deep_view() + lines_acc(Seq::<char>::empty(), cur@) =~= r.deep_view());
        }
    }
    r
}

/// The lines joined into one text, one newline between each two, as
/// `join_lines` describes.
pub fn join_with_newlines(ls: &Vec<String>) -> (r: String)
    ensures
        r@ == join_lines(ls.deep_view()),
{
    let mut r = String::new();
    let mut i: usize = 0;
    proof {
        reveal_strlit("\n");
        assert(ls.deep_view().take(0) =~= Seq::<Seq<char>>::empty());
    }
    while i < ls.len()
        invariant
            0 <= i <= ls@.len(),
            "\n"@ =~= seq!['\n'],
            r@ == join_lines(ls.deep_view().take(i as int)),
        decreases ls@.len() - i,
    {
        if i > 0 {
            r.append("\n");
        }
        r.append(ls[i].as_str());
        proof {
            let dv = ls.deep_view();
            assert(dv[i as int] == ls@[i as int]@);
            assert(dv.take(i + 1) =~= dv.take(i as int).push(dv[i as int]));
            lemma_join_push(dv.take(i as int), dv[i as int]);
            if i == 0 {
                assert(r@ =~= join_lines(dv.take(i + 1)));
            } else {
                assert(r@ =~= join_lines(dv.take(i as int)) + seq!['\n'] + dv[i as int]);
            }
        }
        i += 1;
    }
    proof {
        assert(ls.deep_view().take(ls@.len() as int) =~= ls.deep_view());
    }
    r
}

/// The rewritten `.gitignore` text: nothing when some line already equals
/// `entry`, and otherwise the prior lines with `entry` appended as one
/// further line, joined by newlines.
pub fn updated_gitignore(contents: &str, entry: &str) -> (r: Option<String>)
    ensures
        lines_of(contents@).contains(entry@) ==> r is None,
        !lines_of(contents@).contains(entry@) ==> (r matches Some(s) && s@ == join_lines(
            lines_of(contents@).push(entry@),
        )),
{
    let mut ls = split_lines(contents);
    let n = ls.len();
    let mut i: usize = 0;
    while i < n
        invariant
            0 <= i <= n,
            n == ls@.len(),
            ls.deep_view() == lines_of(contents@),
            forall|j: int| 0 <= j < i ==> ls.deep_view()[j] != entry@,
        decreases n - i,
    {
        if str_eq(ls[i].as_str(), entry) {
            proof {
                assert(ls.deep_view()[i as int] == entry@);
            }
            return None;
        }
        proof {
            assert(ls.deep_view()[i as int] == ls@[i as int]@);
        }
        i += 1;
    }
    proof {
        if lines_of(contents@).contains(entry@) {
            let j = choose|j: int|
                0 <= j < lines_of(contents@).len() && lines_of(contents@)[j] == entry@;
            assert(ls.deep_view()[j] != entry@);
        }
    }
    let ghost pre = ls.deep_view();
    ls.push(entry.to_owned());
    proof {
        assert(ls.deep_view() =~= pre.push(entry@));
    }
    Some(join_with_newlines(&ls))
}

} // verus!
