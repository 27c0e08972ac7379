//! Requests: from the text a client sent to a command.

use crate::command::{Command, CommandView};
use crate::error::{result_view, Error, ErrorView};
use crate::text;
use crate::text::texts;
use vstd::prelude::*;
use vstd::string::StringExecFns;

verus! {

/// Whether a line ending stands at index `i` of `s`.
pub open spec fn crlf_at(s: Seq<char>, i: int) -> bool {
    0 <= i && i + 1 < s.len() && s[i] == '\r' && s[i + 1] == '\n'
}

/// The index of the first line ending in `s`; the length of `s` if it has
/// none.
pub open spec fn first_crlf(s: Seq<char>) -> int
    decreases s.len(),
{
    if s.len() < 2 {
        s.len() as int
    } else if s[0] == '\r' && s[1] == '\n' {
        0
    } else {
        1 + first_crlf(s.skip(1))
    }
}

/// The lines of a text: what stands before the first line ending, then the
/// lines of what stands after it. A text without a line ending is one line,
/// so a text that ends in a line ending has an empty last line.
pub open spec fn lines(s: Seq<char>) -> Seq<Seq<char>>
    decreases s.len(),
{
    let i = first_crlf(s);
    if 0 <= i && i + 2 <= s.len() {
        seq![s.take(i)] + lines(s.skip(i + 2))
    } else {
        seq![s]
    }
}

/// Whether a line counts: it is not empty and does not announce the length
/// of a bulk string.
pub open spec fn is_token(line: Seq<char>) -> bool {
    line.len() > 0 && line[0] != '$'
}

/// [`is_token`], as a value.
pub open spec fn token_filter() -> spec_fn(Seq<char>) -> bool {
    |line: Seq<char>| is_token(line)
}

/// The command that a request spells. Of the lines that count, the first
/// one, which announces the number of items, is passed over; the second is
/// the verb and the others are its arguments. A request without a verb is
/// refused.
pub open spec fn request(s: Seq<char>) -> Result<CommandView, ErrorView> {
    let kept = lines(s).filter(token_filter());
    if kept.len() < 2 {
        Err(ErrorView::ProtocolError)
    } else {
        Ok(CommandView { name: kept[1], args: kept.skip(2) })
    }
}

/// Where the first line ending of a text stands.
pub proof fn lemma_first_crlf(s: Seq<char>)
    ensures
        0 <= first_crlf(s) <= s.len(),
        first_crlf(s) < s.len() ==> crlf_at(s, first_crlf(s)),
        forall|k: int| 0 <= k < first_crlf(s) ==> !crlf_at(s, k),
    decreases s.len(),
{
    if s.len() >= 2 && !(s[0] == '\r' && s[1] == '\n') {
        let t = s.skip(1);
        lemma_first_crlf(t);
        assert forall|k: int| 0 <= k < first_crlf(s) implies !crlf_at(s, k) by {
            if k > 0 {
                assert(!crlf_at(t, k - 1));
            }
        }
    }
}

/// A text without a line ending is a single line.
proof fn lemma_last_line(t: Seq<char>)
    requires
        forall|k: int| 0 <= k < t.len() ==> !crlf_at(t, k),
    ensures
        lines(t) == seq![t],
{
    lemma_first_crlf(t);
}

/// A text whose first line ending stands at `at` is the line before it,
/// followed by the lines after it.
proof fn lemma_next_line(t: Seq<char>, at: int)
    requires
        crlf_at(t, at),
        forall|k: int| 0 <= k < at ==> !crlf_at(t, k),
    ensures
        lines(t) == seq![t.take(at)] + lines(t.skip(at + 2)),
{
    lemma_first_crlf(t);
    let i = first_crlf(t);
    if i > at {
        assert(!crlf_at(t, at));
    }
    if i < at {
        assert(crlf_at(t, i));
    }
}

/// What filtering keeps of a run of lines with one more line at its end.
proof fn lemma_filter_push(done: Seq<Seq<char>>, line: Seq<char>)
    ensures
        done.push(line).filter(token_filter()) == if is_token(line) {
            done.filter(token_filter()).push(line)
        } else {
            done.filter(token_filter())
        },
{
    reveal(Seq::filter);
    assert(done.push(line).drop_last() =~= done);
}

/// Keeps a line if it counts.
fn keep(kept: &mut Vec<String>, chars: &Vec<char>, source: &str, from: usize, to: usize)
    requires
        from <= to <= chars@.len(),
        chars@ == source@,
    ensures
        texts(final(kept)@) == if is_token(source@.subrange(from as int, to as int)) {
            texts(old(kept)@).push(source@.subrange(from as int, to as int))
        } else {
            texts(old(kept)@)
        },
{
    if to > from && chars[from] != '$' {
        let line = String::from_str(source.substring_char(from, to));
        kept.push(line);
        assert(texts(final(kept)@) =~= texts(old(kept)@).push(
            source@.subrange(from as int, to as int),
        ));
    }
}

/// Decodes the text of a request.
pub fn decode(command: &String) -> (r: Result<Command, Error>)
    ensures
        result_view(r) == request(command@),
{
    let source = command.as_str();
    let chars = text::chars_of(source);
    let n = chars.len();
    let ghost s = command@;
    let ghost done: Seq<Seq<char>> = Seq::empty();
    let mut kept: Vec<String> = Vec::new();
    let mut start: usize = 0;
    let mut i: usize = 0;
    proof {
        reveal(Seq::filter);
        assert(s.skip(0) =~= s);
        assert(seq![s] =~= done + seq![s]);
        assert(texts(kept@) =~= done.filter(token_filter()));
    }
    while i < n
        invariant
            start <= i <= n,
            n == s.len(),
            chars@ == s,
            source@ == s,
            lines(s) == done + lines(s.skip(start as int)),
            texts(kept@) == done.filter(token_filter()),
            forall|k: int| start <= k < i ==> !crlf_at(s, k),
        decreases n - i,
    {
        if chars[i] == '\r' && i + 1 < n && chars[i + 1] == '\n' {
            keep(&mut kept, &chars, source, start, i);
            proof {
                let t = s.skip(start as int);
                let line = s.subrange(start as int, i as int);
                assert(crlf_at(t, i - start));
                assert forall|k: int| 0 <= k < i - start implies !crlf_at(t, k) by {
                    assert(!crlf_at(s, k + start));
                }
                lemma_next_line(t, i - start);
                assert(t.take(i - start) =~= line);
                assert(t.skip(i - start + 2) =~= s.skip(i + 2));
                assert(done + (seq![line] + lines(s.skip(i + 2))) =~= done.push(line) + lines(
                    s.skip(i + 2),
                ));
                lemma_filter_push(done, line);
                done = done.push(line);
            }
            i += 2;
            start = i;
        } else {
            i += 1;
        }
    }
    keep(&mut kept, &chars, source, start, n);
    proof {
        let t = s.skip(start as int);
        assert forall|k: int| 0 <= k < t.len() implies !crlf_at(t, k) by {
            assert(!crlf_at(s, k + start));
        }
        lemma_last_line(t);
        assert(t =~= s.subrange(start as int, n as int));
        assert(done + seq![t] =~= done.push(t));
        lemma_filter_push(done, t);
        done = done.push(t);
        assert(texts(kept@) == lines(s).filter(token_filter()));
    }
    if kept.len() < 2 {
        return Err(Error::ProtocolError);
    }
    let ghost all = texts(kept@);
    kept.remove(0);
    let name = kept.remove(0);
    let cmd = Command { name, args: kept };
    assert(cmd@.args =~= all.skip(2));
    Ok(cmd)
}

} // verus!
