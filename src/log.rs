use vstd::prelude::*;
use crate::json::no_newline;

verus! {

/// The text of a log whose lines are `lines`, in order, each ended by a line
/// feed.
pub open spec fn log_text(lines: Seq<Seq<char>>) -> Seq<char>
    decreases lines.len(),
{
    if lines.len() == 0 {
        seq![]
    } else {
        log_text(lines.drop_last()) + lines.last() + seq!['\n']
    }
}

/// Every one of `lines` is a single line: no line feed stands in it.
pub open spec fn single_lines(lines: Seq<Seq<char>>) -> bool {
    forall|i: int| 0 <= i < lines.len() ==> no_newline(#[trigger] lines[i])
}

/// What a caller's appends write, one after another: each line and a line
/// feed, in call order.
pub open spec fn appended(lines: Seq<Seq<char>>) -> Seq<char>
    decreases lines.len(),
{
    if lines.len() == 0 {
        seq![]
    } else {
        appended(lines.drop_last()) + lines.last() + seq!['\n']
    }
}

proof fn lemma_log_text_len(lines: Seq<Seq<char>>)
    ensures
        lines.len() > 0 ==> log_text(lines).len() > 0,
        lines.len() > 0 ==> log_text(lines).last() == '\n',
{
}

/// A log's text splits into its lines in one way only: two sequences of
/// single lines with the same text are the same sequence.
pub proof fn lemma_lines_unique(a: Seq<Seq<char>>, b: Seq<Seq<char>>)
    requires
        single_lines(a),
        single_lines(b),
        log_text(a) == log_text(b),
    ensures
        a == b,
    decreases a.len() + b.len(),
{
    lemma_log_text_len(a);
    lemma_log_text_len(b);
    if a.len() == 0 || b.len() == 0 {
        assert(a.len() == 0 && b.len() == 0);
        assert(a =~= b);
    } else {
        let t = log_text(a);
        let x = log_text(a.drop_last());
        let y = log_text(b.drop_last());
        let la = a.last();
        let lb = b.last();
        assert(no_newline(la));
        assert(no_newline(lb));
        lemma_log_text_len(a.drop_last());
        lemma_log_text_len(b.drop_last());
        assert(t == x + la + seq!['\n']);
        assert(t == y + lb + seq!['\n']);
        if la.len() < lb.len() {
            let k = x.len() - 1;
            assert(t[k] == x[k]);
            assert(t[k] == lb[k - y.len()]);
        } else if lb.len() < la.len() {
            let k = y.len() - 1;
            assert(t[k] == y[k]);
            assert(t[k] == la[k - x.len()]);
        }
        assert(x.len() == y.len());
        assert(x =~= t.subrange(0, x.len() as int));
        assert(y =~= t.subrange(0, x.len() as int));
        assert(la =~= t.subrange(x.len() as int, t.len() - 1));
        assert(lb =~= t.subrange(x.len() as int, t.len() - 1));
        assert(single_lines(a.drop_last()));
        assert(single_lines(b.drop_last()));
        lemma_lines_unique(a.drop_last(), b.drop_last());
        assert(a =~= a.drop_last().push(la));
        assert(b =~= b.drop_last().push(lb));
    }
}

/// Appending lines only adds them at the end: after a caller appends `added`
/// one by one to a log whose lines are `prior`, the log's lines are exactly
/// `prior` followed by `added`, in call order, and no other split of its text
/// into single lines exists.
pub proof fn lemma_append_only_growth(prior: Seq<Seq<char>>, added: Seq<Seq<char>>)
    requires
        single_lines(prior),
        single_lines(added),
    ensures
        log_text(prior) + appended(added) == log_text(prior + added),
        single_lines(prior + added),
        forall|lines: Seq<Seq<char>>|
            single_lines(lines) && #[trigger] log_text(lines) == log_text(prior) + appended(added)
                ==> lines == prior + added,
    decreases added.len(),
{
    if added.len() == 0 {
        assert(prior + added =~= prior);
        assert(log_text(prior) + appended(added) =~= log_text(prior));
    } else {
        let rest = added.drop_last();
        assert(single_lines(rest));
        lemma_append_only_growth(prior, rest);
        assert((prior + added).drop_last() =~= prior + rest);
        assert((prior + added).last() == added.last());
        assert(log_text(prior) + appended(added) =~= log_text(prior) + appended(rest) + added.last()
            + seq!['\n']);
    }
    assert(single_lines(prior + added));
    assert forall|lines: Seq<Seq<char>>|
        single_lines(lines) && #[trigger] log_text(lines) == log_text(prior) + appended(
            added,
        ) implies lines == prior + added by {
        lemma_lines_unique(lines, prior + added);
    }
}

} // verus!
