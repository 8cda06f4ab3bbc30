//! Upload of new lines of the repair log.
//!
//! A bookmark file holds the last line uploaded. The next upload sends the
//! non-empty lines after the last occurrence of that line in the log.

use vstd::prelude::*;
use crate::text::{
    join, json_string, json_string_literal, lemma_split_concat, lemma_split_nonempty, lemma_split_pieces_lack_separator,
    lemma_split_without_separator, lines, lines_of, split_char, strip_cr, trim_end_char, trim_end_matching,
};

verus! {

/// 1-based position of the last line of `ls` equal to `target`; 0 when none is.
pub open spec fn last_match_number(ls: Seq<Seq<char>>, target: Seq<char>) -> nat
    decreases ls.len(),
{
    if ls.len() == 0 {
        0
    } else if ls.last() == target {
        ls.len()
    } else {
        last_match_number(ls.drop_last(), target)
    }
}

/// The bookmark's line: the file's text without trailing newlines.
pub open spec fn bookmark_line(bookmark_text: Seq<char>) -> Seq<char> {
    trim_end_char(bookmark_text, '\n')
}

/// How many lines of the log were already uploaded, given the bookmark file's
/// text: the 1-based position of the last log line equal to the bookmarked
/// line, or 0 when no line is.
pub fn bookmark_line_number(log: &str, bookmark_text: &str) -> (res: usize)
    ensures
        res == last_match_number(lines(log@), bookmark_line(bookmark_text@)),
{
    let target = trim_end_matching(bookmark_text, '\n').to_owned();
    let ls = lines_of(log);
    let ghost all = lines(log@);
    let mut res: usize = 0;
    let mut i: usize = 0;
    while i < ls.len()
        invariant
            i <= ls@.len(),
            ls.deep_view() == all,
            all.len() == ls@.len(),
            target@ == bookmark_line(bookmark_text@),
            res == last_match_number(all.take(i as int), target@),
            res <= i,
        decreases ls@.len() - i,
    {
        proof {
            assert(ls.deep_view()[i as int] == ls@[i as int]@);
            assert(all.take(i + 1).drop_last() =~= all.take(i as int));
        }
        if ls[i] == target {
            res = i + 1;
        }
        i = i + 1;
    }
    proof {
        assert(all.take(i as int) =~= all);
    }
    res
}

/// No line holds a newline.
proof fn lemma_lines_lack_newline(s: Seq<char>)
    ensures
        forall|i: int, k: int|
            0 <= i < lines(s).len() && 0 <= k < lines(s)[i].len() ==> #[trigger] lines(s)[i][k] != '\n',
{
    let p = split_char(s, '\n');
    lemma_split_nonempty(s, '\n');
    lemma_split_pieces_lack_separator(s, '\n');
    assert forall|i: int, k: int|
        0 <= i < lines(s).len() && 0 <= k < lines(s)[i].len() implies #[trigger] lines(s)[i][k] != '\n' by {
        assert(lines(s).len() <= p.len());
        if i + 1 < p.len() {
            let l = p[i];
            assert(lines(s)[i] == strip_cr(l));
            if l.len() > 0 && l.last() == '\r' {
                assert(strip_cr(l)[k] == l[k]);
            }
            assert(p[i][k] != '\n');
        } else {
            assert(lines(s)[i] == p[i]);
            assert(p[i][k] != '\n');
        }
    }
}

/// Parts without newlines, joined by newlines, split back into the same parts.
proof fn lemma_join_then_split(parts: Seq<Seq<char>>)
    requires
        parts.len() >= 1,
        forall|i: int, k: int| 0 <= i < parts.len() && 0 <= k < parts[i].len() ==> #[trigger] parts[i][k] != '\n',
    ensures
        split_char(join(parts, "\n"@), '\n') == parts,
    decreases parts.len(),
{
    reveal_strlit("\n");
    if parts.len() == 1 {
        assert forall|k: int| 0 <= k < parts[0].len() implies parts[0][k] != '\n' by {
            assert(parts[0][k] != '\n');
        }
        lemma_split_without_separator(parts[0], '\n');
        assert(seq![parts[0]] =~= parts);
    } else {
        let front = parts.drop_last();
        let tail = parts.last();
        assert forall|i: int, k: int| 0 <= i < front.len() && 0 <= k < front[i].len() implies #[trigger] front[i][k] != '\n' by {
            assert(front[i] == parts[i]);
            assert(parts[i][k] != '\n');
        }
        assert forall|k: int| 0 <= k < tail.len() implies tail[k] != '\n' by {
            assert(parts[parts.len() - 1][k] != '\n');
        }
        lemma_join_then_split(front);
        let j = join(front, "\n"@);
        assert(join(parts, "\n"@) == j + "\n"@ + tail);
        assert(j + "\n"@ + tail =~= j.push('\n') + tail);
        lemma_split_concat(j, '\n', tail);
        lemma_split_without_separator(tail, '\n');
        assert(front + seq![tail] =~= parts);
    }
}

/// What `nonempty_only` keeps: non-empty lines, the last of them the last
/// non-empty line of the input, and nothing when every line is empty.
proof fn lemma_nonempty_only(x: Seq<Seq<char>>)
    ensures
        forall|i: int| 0 <= i < nonempty_only(x).len() ==> #[trigger] nonempty_only(x)[i].len() > 0,
        (forall|i: int, k: int| 0 <= i < x.len() && 0 <= k < x[i].len() ==> #[trigger] x[i][k] != '\n')
            ==> (forall|i: int, k: int|
            0 <= i < nonempty_only(x).len() && 0 <= k < nonempty_only(x)[i].len()
                ==> #[trigger] nonempty_only(x)[i][k] != '\n'),
        nonempty_only(x).len() > 0 ==> exists|j: int|
            0 <= j < x.len() && #[trigger] x[j] == nonempty_only(x).last() && forall|k: int|
                j < k < x.len() ==> (#[trigger] x[k]).len() == 0,
        (forall|k: int| 0 <= k < x.len() ==> (#[trigger] x[k]).len() == 0) ==> nonempty_only(x).len() == 0,
    decreases x.len(),
{
    if x.len() > 0 {
        let front = x.drop_last();
        lemma_nonempty_only(front);
        let nf = nonempty_only(front);
        assert forall|k: int| 0 <= k < front.len() implies #[trigger] front[k] == x[k] by {}
        if (forall|i: int, k: int| 0 <= i < x.len() && 0 <= k < x[i].len() ==> #[trigger] x[i][k] != '\n') {
            assert forall|i: int, k: int| 0 <= i < front.len() && 0 <= k < front[i].len() implies #[trigger] front[i][k] != '\n' by {
                assert(front[i] == x[i]);
                assert(x[i][k] != '\n');
            }
            assert forall|i: int, k: int|
                0 <= i < nonempty_only(x).len() && 0 <= k < nonempty_only(x)[i].len() implies #[trigger] nonempty_only(x)[i][k] != '\n' by {
                if i < nf.len() {
                    assert(nonempty_only(x)[i] == nf[i]);
                } else {
                    assert(nonempty_only(x)[i] == x[x.len() - 1]);
                    assert(x[x.len() - 1][k] != '\n');
                }
            }
        }
        if x.last().len() > 0 {
            assert(nonempty_only(x).last() == x[x.len() - 1]);
        } else {
            if nf.len() > 0 {
                let j = choose|j: int|
                    0 <= j < front.len() && #[trigger] front[j] == nf.last() && forall|k: int|
                        j < k < front.len() ==> (#[trigger] front[k]).len() == 0;
                assert(x[j] == nonempty_only(x).last());
                assert forall|k: int| j < k < x.len() implies (#[trigger] x[k]).len() == 0 by {
                    if k < front.len() {
                        assert(front[k] == x[k]);
                    }
                }
            }
            if forall|k: int| 0 <= k < x.len() ==> (#[trigger] x[k]).len() == 0 {
                assert forall|k: int| 0 <= k < front.len() implies (#[trigger] front[k]).len() == 0 by {
                    assert(front[k] == x[k]);
                }
            }
        }
    }
}

/// The bookmark points at or past every line equal to it.
proof fn lemma_last_match_number(ls: Seq<Seq<char>>, target: Seq<char>, j: int)
    requires
        0 <= j < ls.len(),
        ls[j] == target,
    ensures
        j + 1 <= last_match_number(ls, target) <= ls.len(),
    decreases ls.len(),
{
    if ls.last() != target {
        assert(j < ls.len() - 1);
        assert(ls.drop_last()[j] == ls[j]);
        lemma_last_match_number(ls.drop_last(), target, j);
    }
}

/// After an upload, the bookmark is set to the last non-empty line uploaded; the
/// next run, on the same log, finds nothing new to upload.
pub proof fn law_upload_then_bookmark_leaves_nothing_new(log: Seq<char>, start: int)
    requires
        0 <= start,
        spec_new_log_lines(log, start).len() > 0,
    ensures
        spec_new_log_lines(
            log,
            last_match_number(
                lines(log),
                bookmark_line(last_nonempty(lines(spec_new_log_lines(log, start)))),
            ) as int,
        ).len() == 0,
{
    reveal_strlit("\n");
    let ls = lines(log);
    let n = ls.len() as int;
    assert(start < n);
    let x = ls.subrange(start, n);
    let parts = nonempty_only(x);
    assert(parts.len() > 0);
    lemma_lines_lack_newline(log);
    assert forall|i: int, k: int| 0 <= i < x.len() && 0 <= k < x[i].len() implies #[trigger] x[i][k] != '\n' by {
        assert(x[i] == ls[start + i]);
        assert(ls[start + i][k] != '\n');
    }
    lemma_nonempty_only(x);
    lemma_join_then_split(parts);
    let body = join(parts, "\n"@);
    let tail = parts.last();
    assert(tail == parts[parts.len() - 1]);
    assert(tail.len() > 0);
    assert(split_char(body, '\n').last().len() > 0);
    assert(lines(body).len() == parts.len());
    assert(lines(body)[parts.len() - 1] == tail);
    assert(lines(body).last() == tail);
    assert(last_nonempty(lines(body)) == tail);
    assert(tail[tail.len() - 1] != '\n');
    assert(bookmark_line(tail) == tail);
    let j = choose|j: int|
        0 <= j < x.len() && #[trigger] x[j] == parts.last() && forall|k: int|
            j < k < x.len() ==> (#[trigger] x[k]).len() == 0;
    assert(ls[start + j] == tail);
    lemma_last_match_number(ls, tail, start + j);
    let next = last_match_number(ls, tail) as int;
    if next < n {
        let y = ls.subrange(next, n);
        assert forall|k: int| 0 <= k < y.len() implies (#[trigger] y[k]).len() == 0 by {
            assert(y[k] == x[next + k - start]);
        }
        lemma_nonempty_only(y);
    }
}

/// The non-empty lines of `ls`, in order.
pub open spec fn nonempty_only(ls: Seq<Seq<char>>) -> Seq<Seq<char>>
    decreases ls.len(),
{
    if ls.len() == 0 {
        Seq::empty()
    } else if ls.last().len() > 0 {
        nonempty_only(ls.drop_last()).push(ls.last())
    } else {
        nonempty_only(ls.drop_last())
    }
}

/// The lines after the first `start`, non-empty ones only.
pub open spec fn lines_after(log: Seq<char>, start: int) -> Seq<Seq<char>> {
    let ls = lines(log);
    if start < ls.len() {
        nonempty_only(ls.subrange(start, ls.len() as int))
    } else {
        Seq::empty()
    }
}

/// The text uploaded: the non-empty lines after the first `start`, one per line.
pub open spec fn spec_new_log_lines(log: Seq<char>, start: int) -> Seq<char> {
    join(lines_after(log, start), "\n"@)
}

/// The log text to upload: the non-empty lines after the first `start` lines,
/// joined by newlines.
pub fn new_log_lines(log: &str, start: usize) -> (res: String)
    ensures
        res@ == spec_new_log_lines(log@, start as int),
{
    let ls = lines_of(log);
    let ghost all = lines(log@);
    let mut res = String::new();
    if start >= ls.len() {
        return res;
    }
    let mut empty_so_far = true;
    let mut i: usize = start;
    while i < ls.len()
        invariant
            start <= i <= ls@.len(),
            ls.deep_view() == all,
            all.len() == ls@.len(),
            res@ == join(nonempty_only(all.subrange(start as int, i as int)), "\n"@),
            empty_so_far <==> nonempty_only(all.subrange(start as int, i as int)).len() == 0,
        decreases ls@.len() - i,
    {
        let ghost before = nonempty_only(all.subrange(start as int, i as int));
        proof {
            assert(ls.deep_view()[i as int] == ls@[i as int]@);
            assert(all.subrange(start as int, i + 1).drop_last() =~= all.subrange(start as int, i as int));
        }
        if !ls[i].as_str().is_empty() {
            if !empty_so_far {
                res.append("\n");
            }
            res.append(ls[i].as_str());
            empty_so_far = false;
            proof {
                let after = before.push(all[i as int]);
                assert(after.drop_last() =~= before);
                if before.len() == 0 {
                    assert(after =~= seq![all[i as int]]);
                }
            }
        }
        i = i + 1;
    }
    res
}

/// The last non-empty line of `ls`, or the empty line when there is none.
pub open spec fn last_nonempty(ls: Seq<Seq<char>>) -> Seq<char>
    decreases ls.len(),
{
    if ls.len() == 0 {
        Seq::empty()
    } else if ls.last().len() > 0 {
        ls.last()
    } else {
        last_nonempty(ls.drop_last())
    }
}

/// The line to store as the new bookmark: the last non-empty line of the
/// uploaded text, or the empty line.
pub fn last_nonempty_line(text: &str) -> (res: String)
    ensures
        res@ == last_nonempty(lines(text@)),
{
    let ls = lines_of(text);
    let ghost all = lines(text@);
    let mut i: usize = ls.len();
    proof {
        assert(all.take(i as int) =~= all);
    }
    while i > 0
        invariant
            i <= ls@.len(),
            ls.deep_view() == all,
            all == lines(text@),
            all.len() == ls@.len(),
            last_nonempty(all) == last_nonempty(all.take(i as int)),
        decreases i,
    {
        proof {
            assert(ls.deep_view()[i - 1] == ls@[i - 1]@);
            assert(all.take(i as int).drop_last() =~= all.take(i - 1));
            assert(all.take(i as int).last() == all[i - 1]);
        }
        if !ls[i - 1].as_str().is_empty() {
            return ls[i - 1].clone();
        }
        i = i - 1;
    }
    String::new()
}

/// The JSON document posted to the reset-logs webhook: `{"logs":<text>}`.
pub open spec fn spec_logs_body(logs: Seq<char>) -> Seq<char> {
    "{\"logs\":"@ + json_string_literal(logs) + "}"@
}

/// The JSON body that uploads `logs`.
pub fn logs_body_json(logs: &str) -> (res: String)
    ensures
        res@ == spec_logs_body(logs@),
{
    let mut body = "{\"logs\":".to_owned();
    let encoded = json_string(logs);
    body.append(encoded.as_str());
    body.append("}");
    body
}

} // verus!
