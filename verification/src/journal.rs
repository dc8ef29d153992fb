//! The file of security events: one event on each line, the newest at the end.

use crate::text;
use vstd::prelude::*;

verus! {

/// A line without the carriage return that may stand in front of its end.
pub open spec fn ended_line(part: Seq<char>) -> Seq<char> {
    if part.len() > 0 && part.last() == '\r' {
        part.drop_last()
    } else {
        part
    }
}

/// The lines of a text. A line ends with a line feed, or with a carriage return and a line feed; the
/// end of the last line may be missing.
pub open spec fn lines_of(content: Seq<char>) -> Seq<Seq<char>> {
    let parts = text::split_of(content, '\n');
    let ended = parts.drop_last().map_values(|part: Seq<char>| ended_line(part));
    if parts.last().len() == 0 {
        ended
    } else {
        ended.push(parts.last())
    }
}

/// The last lines of a text, at most `limit` of them, the last one first.
pub open spec fn recent_lines_of(content: Seq<char>, limit: nat) -> Seq<Seq<char>> {
    let all = lines_of(content);
    let n = if limit < all.len() {
        limit
    } else {
        all.len()
    };
    Seq::new(n, |i: int| all[all.len() - 1 - i])
}

fn end_line(part: &str) -> (r: String)
    ensures
        r@ == ended_line(part@),
{
    let x = text::chars_of(part);
    let n: usize = x.len();
    if n > 0 && x[n - 1] == '\r' {
        let line = text::string_of(&x, 0, n - 1);
        assert(line@ =~= part@.drop_last());
        line
    } else {
        part.to_string()
    }
}

/// The lines with the newest events, at most `limit` of them, the newest first.
pub fn recent_lines(content: &str, limit: usize) -> (r: Vec<String>)
    ensures
        r.deep_view() == recent_lines_of(content@, limit as nat),
{
    let parts = text::split(content, '\n');
    let ghost all = parts.deep_view();
    let ghost lines = lines_of(content@);
    let mut out: Vec<String> = Vec::new();
    proof {
        text::lemma_split_parts(content@, '\n');
        assert(all[all.len() - 1] == parts@[parts@.len() - 1]@);
    }
    let last: usize = parts.len() - 1;
    let mut left: usize = last;
    if limit > 0 && !parts[last].as_str().is_empty() {
        out.push(parts[last].clone());
    }
    assert(out.deep_view() =~= Seq::new(
        out@.len(),
        |i: int| lines[lines.len() - 1 - i],
    ));
    while left > 0 && out.len() < limit
        invariant
            left <= last,
            last == parts@.len() - 1,
            all == parts.deep_view(),
            all == text::split_of(content@, '\n'),
            lines == lines_of(content@),
            out@.len() <= limit,
            limit > 0 ==> out@.len() + left == lines.len(),
            out.deep_view() == Seq::new(out@.len(), |i: int| lines[lines.len() - 1 - i]),
        decreases left,
    {
        left = left - 1;
        assert(all[left as int] == parts@[left as int]@);
        let ghost before = out.deep_view();
        out.push(end_line(parts[left].as_str()));
        proof {
            assert(lines[left as int] == ended_line(all[left as int]));
            assert(out.deep_view() =~= before.push(lines[left as int]));
            assert(out.deep_view() =~= Seq::new(
                out@.len(),
                |i: int| lines[lines.len() - 1 - i],
            ));
        }
    }
    assert(out.deep_view() =~= recent_lines_of(content@, limit as nat));
    out
}

/// A line that is written behind the others is read back as the newest, and the others stay.
pub proof fn law_appended_line_is_newest(content: Seq<char>, line: Seq<char>)
    requires
        content.len() == 0 || content.last() == '\n',
        !line.contains('\n'),
        line.len() == 0 || line.last() != '\r',
    ensures
        lines_of(content + line + seq!['\n']) == lines_of(content).push(line),
        recent_lines_of(content + line + seq!['\n'], 1) == seq![line],
{
    let e = Seq::<char>::empty();
    let written = content + line + seq!['\n'];
    text::lemma_split_whole(line, '\n');
    text::lemma_split_append(content + line, '\n', e);
    assert((content + line) + seq!['\n'] + e =~= written);
    if content.len() == 0 {
        assert(content =~= e);
        assert(content + line =~= line);
        assert(text::split_of(content, '\n') =~= seq![e]);
    } else {
        let front = content.drop_last();
        assert(content + line =~= front + seq!['\n'] + line);
        text::lemma_split_append(front, '\n', line);
        text::lemma_split_append(front, '\n', e);
        assert(content =~= front + seq!['\n'] + e);
    }
    assert(lines_of(written) =~= lines_of(content).push(line));
    assert(recent_lines_of(written, 1) =~= seq![line]);
}

} // verus!
